//! Rendering of AnythingLLM's replies into the text returned to MCP clients.
//! Each reply is read in two steps: the fields the text needs are taken from
//! the parsed JSON, then a pure renderer lays them out. Replies that do not
//! have the expected shape are passed through verbatim.

use vstd::prelude::*;
use crate::json::{
    array_len, array_len_at, fixed3_at_or_zero, json_fixed3_at, json_number_fixed3, fixed3_or_zero, int_at_or_zero, int_or_zero,
    item_pointer, join_pointer, json_at, json_parses, json_pointer, make_item_pointer,
    parse_json, str_or, string_at_or, JsonDoc, JsonLeaf, JsonLeafView,
};
use crate::text::{decimal, push_decimal, push_signed_decimal, push_str, signed_decimal};

verus! {

/// One vector-search match, as shown to the client.
#[derive(Debug, Clone)]
pub struct SearchHit {
    pub title: String,
    pub text: String,
    /// The score written with three decimals.
    pub score: String,
    /// The distance written with three decimals.
    pub distance: String,
}

/// The mathematical content of a [`SearchHit`].
pub struct SearchHitView {
    pub title: Seq<char>,
    pub text: Seq<char>,
    pub score: Seq<char>,
    pub distance: Seq<char>,
}

impl View for SearchHit {
    type V = SearchHitView;

    open spec fn view(&self) -> SearchHitView {
        SearchHitView {
            title: self.title@,
            text: self.text@,
            score: self.score@,
            distance: self.distance@,
        }
    }
}

/// The views of a sequence of search hits.
pub open spec fn hit_views(hits: Seq<SearchHit>) -> Seq<SearchHitView> {
    hits.map_values(|h: SearchHit| h@)
}

/// The line block for the hit numbered `number` (counting from 1).
pub open spec fn hit_block(number: nat, h: SearchHitView) -> Seq<char> {
    decimal(number) + ". [Score: "@ + h.score + ", Distance: "@ + h.distance + "] "@ + h.title
        + "\n   "@ + h.text + "\n\n"@
}

/// The concatenation of `block(0)`, ..., `block(n - 1)`.
pub open spec fn concat_blocks(n: nat, block: spec_fn(nat) -> Seq<char>) -> Seq<char>
    decreases n,
{
    if n == 0 {
        Seq::<char>::empty()
    } else {
        concat_blocks((n - 1) as nat, block) + block((n - 1) as nat)
    }
}

/// The blocks of the first `n` hits, in order, numbered from 1.
pub open spec fn hit_blocks(hits: Seq<SearchHitView>, n: nat) -> Seq<char> {
    concat_blocks(n, |k: nat| hit_block(k + 1, hits[k as int]))
}

/// The text shown for a vector search in workspace `slug`: the hits when the
/// reply held a `results` array, the raw reply otherwise.
pub open spec fn search_results_text(
    slug: Seq<char>,
    hits: Option<Seq<SearchHitView>>,
    response: Seq<char>,
) -> Seq<char> {
    match hits {
        Some(hs) => if hs.len() == 0 {
            "No results found in workspace '"@ + slug + "'."@
        } else {
            "Found "@ + decimal(hs.len()) + " result(s) in workspace '"@ + slug + "':\n\n"@
                + hit_blocks(hs, hs.len())
        },
        None => "Search results for workspace '"@ + slug + "':\n"@ + response,
    }
}

/// Appends the block of the hit numbered `number`.
fn push_hit_block(s: &mut String, number: usize, h: &SearchHit)
    ensures
        final(s)@ == old(s)@ + hit_block(number as nat, h@),
{
    push_decimal(s, number as u64);
    push_str(s, ". [Score: ");
    push_str(s, h.score.as_str());
    push_str(s, ", Distance: ");
    push_str(s, h.distance.as_str());
    push_str(s, "] ");
    push_str(s, h.title.as_str());
    push_str(s, "\n   ");
    push_str(s, h.text.as_str());
    push_str(s, "\n\n");
    assert(s@ =~= old(s)@ + hit_block(number as nat, h@));
}

/// Lays out the hits of a vector search in workspace `slug`; `hits` is `None`
/// when the reply `response_text` had no `results` array.
pub fn render_search_results(slug: &str, hits: Option<&Vec<SearchHit>>, response_text: &str) -> (r: String)
    ensures
        r@ == search_results_text(
            slug@,
            match hits {
                Some(hs) => Some(hit_views(hs@)),
                None => None,
            },
            response_text@,
        ),
{
    match hits {
        None => {
            let mut s = "Search results for workspace '".to_owned();
            push_str(&mut s, slug);
            push_str(&mut s, "':\n");
            push_str(&mut s, response_text);
            s
        },
        Some(hs) => {
            let ghost views = hit_views(hs@);
            if hs.len() == 0 {
                let mut s = "No results found in workspace '".to_owned();
                push_str(&mut s, slug);
                push_str(&mut s, "'.");
                return s;
            }
            let mut s = "Found ".to_owned();
            push_decimal(&mut s, hs.len() as u64);
            push_str(&mut s, " result(s) in workspace '");
            push_str(&mut s, slug);
            push_str(&mut s, "':\n\n");
            let ghost header = s@;
            let mut i: usize = 0;
            while i < hs.len()
                invariant
                    0 <= i <= hs@.len(),
                    views == hit_views(hs@),
                    s@ == header + hit_blocks(views, i as nat),
                decreases hs@.len() - i,
            {
                push_hit_block(&mut s, i + 1, &hs[i]);
                assert(s@ =~= header + hit_blocks(views, (i + 1) as nat));
                i = i + 1;
            }
            s
        },
    }
}

/// The pointer to `field` of the `i`-th search result.
pub open spec fn result_field(i: nat, field: Seq<char>) -> Seq<char> {
    item_pointer("/results"@, i, field)
}

/// The hit the `i`-th search result of reply `text` shows: missing text and
/// title read as empty, missing score and distance as `0.000`.
pub open spec fn spec_search_hit(text: Seq<char>, i: nat) -> SearchHitView {
    SearchHitView {
        title: str_or(text, result_field(i, "/metadata/title"@), Seq::<char>::empty()),
        text: str_or(text, result_field(i, "/text"@), Seq::<char>::empty()),
        score: fixed3_or_zero(text, result_field(i, "/score"@)),
        distance: fixed3_or_zero(text, result_field(i, "/distance"@)),
    }
}

/// The hits of vector-search reply `text`, when it parses and has a
/// `results` array.
pub open spec fn spec_search_hits(text: Seq<char>) -> Option<Seq<SearchHitView>> {
    if json_parses(text) {
        match array_len(text, "/results"@) {
            Some(n) => Some(Seq::new(n, |i: int| spec_search_hit(text, i as nat))),
            None => None,
        }
    } else {
        None
    }
}

/// Reads the search hits out of a parsed vector-search reply.
pub fn search_hits(doc: &JsonDoc) -> (r: Option<Vec<SearchHit>>)
    ensures
        match array_len(doc@, "/results"@) {
            Some(n) => r matches Some(hs) && hit_views(hs@) == Seq::new(
                n,
                |i: int| spec_search_hit(doc@, i as nat),
            ),
            None => r is None,
        },
{
    let n = match array_len_at(doc, "/results") {
        Some(n) => n,
        None => return None,
    };
    let mut hits: Vec<SearchHit> = Vec::new();
    let mut i: usize = 0;
    while i < n
        invariant
            0 <= i <= n,
            hits@.len() == i,
            forall|j: int| 0 <= j < i ==> #[trigger] hits@[j]@ == spec_search_hit(doc@, j as nat),
        decreases n - i,
    {
        proof {
            reveal_strlit("");
        }
        let title = string_at_or(doc, make_item_pointer("/results", i, "/metadata/title").as_str(), "");
        let text = string_at_or(doc, make_item_pointer("/results", i, "/text").as_str(), "");
        let score = fixed3_at_or_zero(doc, make_item_pointer("/results", i, "/score").as_str());
        let distance = fixed3_at_or_zero(
            doc,
            make_item_pointer("/results", i, "/distance").as_str(),
        );
        let hit = SearchHit { title, text, score, distance };
        assert(hit@.title == spec_search_hit(doc@, i as nat).title);
        assert(hit@.text == spec_search_hit(doc@, i as nat).text);
        assert(hit@.score == spec_search_hit(doc@, i as nat).score);
        assert(hit@.distance == spec_search_hit(doc@, i as nat).distance);
        assert(hit@ == spec_search_hit(doc@, i as nat));
        hits.push(hit);
        i = i + 1;
    }
    assert(hit_views(hits@) =~= Seq::new(n as nat, |i: int| spec_search_hit(doc@, i as nat)));
    Some(hits)
}

/// Renders a vector-search reply for workspace `slug`.
pub fn format_search_results(response_text: &str, slug: &str) -> (r: Result<String, crate::api::ToolFailure>)
    ensures
        r matches Ok(s) && s@ == search_results_text(
            slug@,
            spec_search_hits(response_text@),
            response_text@,
        ),
{
    let hits = match parse_json(response_text) {
        Some(doc) => search_hits(&doc),
        None => None,
    };
    let out = match &hits {
        Some(hs) => render_search_results(slug, Some(hs), response_text),
        None => render_search_results(slug, None, response_text),
    };
    Ok(out)
}


/// Where the workspace object of a workspace reply sits: under `workspace`,
/// or else as the first element of a non-empty `workspaces` array.
pub open spec fn workspace_pointer(text: Seq<char>) -> Option<Seq<char>> {
    if json_pointer(text, "/workspace"@) is Some {
        Some("/workspace"@)
    } else {
        match array_len(text, "/workspaces"@) {
            Some(n) => if n > 0 {
                Some("/workspaces/0"@)
            } else {
                None
            },
            None => None,
        }
    }
}

/// Finds the workspace object of a parsed workspace reply.
pub fn find_workspace(doc: &JsonDoc) -> (r: Option<&'static str>)
    ensures
        match workspace_pointer(doc@) {
            Some(p) => r matches Some(x) && x@ == p,
            None => r is None,
        },
{
    if json_at(doc, "/workspace").is_some() {
        Some("/workspace")
    } else {
        match array_len_at(doc, "/workspaces") {
            Some(n) => if n > 0 {
                Some("/workspaces/0")
            } else {
                None
            },
            None => None,
        }
    }
}

/// One document of a workspace, as listed to the client.
#[derive(Debug, Clone)]
pub struct DocumentEntry {
    pub id: i64,
    pub title: String,
    pub docpath: String,
    pub created: String,
}

/// The mathematical content of a [`DocumentEntry`].
pub struct DocumentEntryView {
    pub id: i64,
    pub title: Seq<char>,
    pub docpath: Seq<char>,
    pub created: Seq<char>,
}

impl View for DocumentEntry {
    type V = DocumentEntryView;

    open spec fn view(&self) -> DocumentEntryView {
        DocumentEntryView {
            id: self.id,
            title: self.title@,
            docpath: self.docpath@,
            created: self.created@,
        }
    }
}

/// A workspace's display name with its documents.
#[derive(Debug, Clone)]
pub struct DocumentListing {
    pub name: String,
    pub documents: Vec<DocumentEntry>,
}

/// The views of a sequence of document entries.
pub open spec fn entry_views(docs: Seq<DocumentEntry>) -> Seq<DocumentEntryView> {
    docs.map_values(|d: DocumentEntry| d@)
}

/// The line block for the document numbered `number` (counting from 1).
pub open spec fn document_block(number: nat, d: DocumentEntryView) -> Seq<char> {
    decimal(number) + ". ["@ + signed_decimal(d.id as int) + "] "@ + d.title + "\n   Docpath: "@
        + d.docpath + "\n   Created: "@ + d.created + "\n\n"@
}

/// The text listing the documents of a workspace; `listing` is the
/// workspace's name with its documents, or `None` when the reply `response`
/// had no workspace with a `documents` array.
pub open spec fn document_list_text(
    slug: Seq<char>,
    listing: Option<(Seq<char>, Seq<DocumentEntryView>)>,
    response: Seq<char>,
) -> Seq<char> {
    match listing {
        Some((name, docs)) => if docs.len() == 0 {
            "Workspace '"@ + name + "' has no documents."@
        } else {
            "Workspace '"@ + name + "' has "@ + decimal(docs.len()) + " document(s):\n\n"@
                + concat_blocks(docs.len(), |k: nat| document_block(k + 1, docs[k as int]))
        },
        None => "Workspace '"@ + slug + "':\n"@ + response,
    }
}

/// Appends the block of the document numbered `number`.
fn push_document_block(s: &mut String, number: usize, d: &DocumentEntry)
    ensures
        final(s)@ == old(s)@ + document_block(number as nat, d@),
{
    push_decimal(s, number as u64);
    push_str(s, ". [");
    push_signed_decimal(s, d.id);
    push_str(s, "] ");
    push_str(s, d.title.as_str());
    push_str(s, "\n   Docpath: ");
    push_str(s, d.docpath.as_str());
    push_str(s, "\n   Created: ");
    push_str(s, d.created.as_str());
    push_str(s, "\n\n");
    assert(s@ =~= old(s)@ + document_block(number as nat, d@));
}

/// Lays out the documents of workspace `slug`.
pub fn render_document_list(slug: &str, listing: Option<&DocumentListing>, response_text: &str) -> (r: String)
    ensures
        r@ == document_list_text(
            slug@,
            match listing {
                Some(l) => Some((l.name@, entry_views(l.documents@))),
                None => None,
            },
            response_text@,
        ),
{
    match listing {
        None => {
            let mut s = "Workspace '".to_owned();
            push_str(&mut s, slug);
            push_str(&mut s, "':\n");
            push_str(&mut s, response_text);
            s
        },
        Some(l) => {
            let docs = &l.documents;
            let ghost views = entry_views(docs@);
            let ghost block = |k: nat| document_block(k + 1, views[k as int]);
            let mut s = "Workspace '".to_owned();
            push_str(&mut s, l.name.as_str());
            if docs.len() == 0 {
                push_str(&mut s, "' has no documents.");
                return s;
            }
            push_str(&mut s, "' has ");
            push_decimal(&mut s, docs.len() as u64);
            push_str(&mut s, " document(s):\n\n");
            let ghost header = s@;
            let mut i: usize = 0;
            while i < docs.len()
                invariant
                    0 <= i <= docs@.len(),
                    views == entry_views(docs@),
                    block == (|k: nat| document_block(k + 1, views[k as int])),
                    s@ == header + concat_blocks(i as nat, block),
                decreases docs@.len() - i,
            {
                push_document_block(&mut s, i + 1, &docs[i]);
                assert(s@ =~= header + concat_blocks((i + 1) as nat, block));
                i = i + 1;
            }
            s
        },
    }
}

/// The title recorded in a document's `metadata`, which AnythingLLM stores as
/// a JSON string: empty when the metadata is missing, not a string, not JSON,
/// or has no string `title`.
pub open spec fn metadata_title(text: Seq<char>, pointer: Seq<char>) -> Seq<char> {
    match json_pointer(text, pointer) {
        Some(JsonLeafView::Str(m)) => if json_parses(m) {
            str_or(m, "/title"@, ""@)
        } else {
            ""@
        },
        _ => ""@,
    }
}

/// Reads the title out of the JSON text stored at `pointer`.
fn metadata_title_at(doc: &JsonDoc, pointer: &str) -> (r: String)
    ensures
        r@ == metadata_title(doc@, pointer@),
{
    match json_at(doc, pointer) {
        Some(JsonLeaf::Str(m)) => match parse_json(m.as_str()) {
            Some(meta) => string_at_or(&meta, "/title", ""),
            None => "".to_owned(),
        },
        _ => "".to_owned(),
    }
}

/// The entry the `i`-th document of the workspace at `ws` shows: id 0,
/// docpath `unknown` and empty title and creation date where missing.
pub open spec fn spec_document_entry(text: Seq<char>, ws: Seq<char>, i: nat) -> DocumentEntryView {
    let base = ws + "/documents"@;
    DocumentEntryView {
        id: int_or_zero(text, item_pointer(base, i, "/id"@)),
        title: metadata_title(text, item_pointer(base, i, "/metadata"@)),
        docpath: str_or(text, item_pointer(base, i, "/docpath"@), "unknown"@),
        created: str_or(text, item_pointer(base, i, "/createdAt"@), ""@),
    }
}

/// The name and documents of the workspace in reply `text`, when it parses,
/// has a workspace, and that workspace has a `documents` array.
pub open spec fn spec_document_listing(text: Seq<char>, slug: Seq<char>) -> Option<
    (Seq<char>, Seq<DocumentEntryView>),
> {
    if json_parses(text) {
        match workspace_pointer(text) {
            Some(ws) => match array_len(text, ws + "/documents"@) {
                Some(n) => Some(
                    (
                        str_or(text, ws + "/name"@, slug),
                        Seq::new(n, |i: int| spec_document_entry(text, ws, i as nat)),
                    ),
                ),
                None => None,
            },
            None => None,
        }
    } else {
        None
    }
}

/// Reads the documents of workspace `slug` out of a parsed workspace reply.
pub fn document_listing(doc: &JsonDoc, slug: &str) -> (r: Option<DocumentListing>)
    ensures
        match workspace_pointer(doc@) {
            Some(ws) => match array_len(doc@, ws + "/documents"@) {
                Some(n) => r matches Some(l) && l.name@ == str_or(doc@, ws + "/name"@, slug@)
                    && entry_views(l.documents@) == Seq::new(
                    n,
                    |i: int| spec_document_entry(doc@, ws, i as nat),
                ),
                None => r is None,
            },
            None => r is None,
        },
{
    let ws = match find_workspace(doc) {
        Some(ws) => ws,
        None => return None,
    };
    let docs_ptr = join_pointer(ws, "/documents");
    let n = match array_len_at(doc, docs_ptr.as_str()) {
        Some(n) => n,
        None => return None,
    };
    let name = string_at_or(doc, join_pointer(ws, "/name").as_str(), slug);
    let mut documents: Vec<DocumentEntry> = Vec::new();
    let mut i: usize = 0;
    while i < n
        invariant
            0 <= i <= n,
            docs_ptr@ == ws@ + "/documents"@,
            documents@.len() == i,
            forall|j: int|
                0 <= j < i ==> #[trigger] documents@[j]@ == spec_document_entry(doc@, ws@, j as nat),
        decreases n - i,
    {
        proof {
            reveal_strlit("");
        }
        let id = int_at_or_zero(doc, make_item_pointer(docs_ptr.as_str(), i, "/id").as_str());
        let title = metadata_title_at(doc, make_item_pointer(docs_ptr.as_str(), i, "/metadata").as_str());
        let docpath = string_at_or(
            doc,
            make_item_pointer(docs_ptr.as_str(), i, "/docpath").as_str(),
            "unknown",
        );
        let created = string_at_or(
            doc,
            make_item_pointer(docs_ptr.as_str(), i, "/createdAt").as_str(),
            "",
        );
        let entry = DocumentEntry { id, title, docpath, created };
        assert(entry@.id == spec_document_entry(doc@, ws@, i as nat).id);
        assert(entry@.title == spec_document_entry(doc@, ws@, i as nat).title);
        assert(entry@.docpath == spec_document_entry(doc@, ws@, i as nat).docpath);
        assert(entry@.created == spec_document_entry(doc@, ws@, i as nat).created);
        assert(entry@ == spec_document_entry(doc@, ws@, i as nat));
        documents.push(entry);
        i = i + 1;
    }
    assert(entry_views(documents@) =~= Seq::new(
        n as nat,
        |i: int| spec_document_entry(doc@, ws@, i as nat),
    ));
    Some(DocumentListing { name, documents })
}

/// Renders a workspace reply as the list of its documents.
pub fn format_workspace_document_list(response_text: &str, slug: &str) -> (r: Result<String, crate::api::ToolFailure>)
    ensures
        r matches Ok(s) && s@ == document_list_text(
            slug@,
            spec_document_listing(response_text@, slug@),
            response_text@,
        ),
{
    let listing = match parse_json(response_text) {
        Some(doc) => document_listing(&doc, slug),
        None => None,
    };
    let out = match &listing {
        Some(l) => render_document_list(slug, Some(l), response_text),
        None => render_document_list(slug, None, response_text),
    };
    Ok(out)
}


/// The summary of a workspace shown to the client.
#[derive(Debug, Clone)]
pub struct WorkspaceDetails {
    pub name: String,
    pub slug: String,
    pub documents: usize,
    pub threads: usize,
    pub created: String,
    pub updated: String,
    /// The workspace's settings as (label, value) pairs, in display order.
    pub settings: Vec<(String, String)>,
}

/// The mathematical content of a [`WorkspaceDetails`].
pub struct WorkspaceDetailsView {
    pub name: Seq<char>,
    pub slug: Seq<char>,
    pub documents: nat,
    pub threads: nat,
    pub created: Seq<char>,
    pub updated: Seq<char>,
    pub settings: Seq<(Seq<char>, Seq<char>)>,
}

/// The views of a sequence of (label, value) pairs.
pub open spec fn pair_views(v: Seq<(String, String)>) -> Seq<(Seq<char>, Seq<char>)> {
    v.map_values(|p: (String, String)| (p.0@, p.1@))
}

impl View for WorkspaceDetails {
    type V = WorkspaceDetailsView;

    open spec fn view(&self) -> WorkspaceDetailsView {
        WorkspaceDetailsView {
            name: self.name@,
            slug: self.slug@,
            documents: self.documents as nat,
            threads: self.threads as nat,
            created: self.created@,
            updated: self.updated@,
            settings: pair_views(self.settings@),
        }
    }
}

/// The line showing one setting.
pub open spec fn setting_line(label: Seq<char>, value: Seq<char>) -> Seq<char> {
    "\n  "@ + label + ": "@ + value
}

/// The text describing workspace `slug`; `details` is `None` when the reply
/// `response` held no workspace.
pub open spec fn workspace_details_text(
    slug: Seq<char>,
    details: Option<WorkspaceDetailsView>,
    response: Seq<char>,
) -> Seq<char> {
    match details {
        Some(d) => "Workspace: "@ + d.name + "\nSlug: "@ + d.slug + "\nDocuments: "@ + decimal(
            d.documents,
        ) + "\nThreads: "@ + decimal(d.threads) + "\nCreated: "@ + d.created
            + "\nLast Updated: "@ + d.updated + "\nSettings:"@ + concat_blocks(
            d.settings.len(),
            |k: nat| setting_line(d.settings[k as int].0, d.settings[k as int].1),
        ),
        None => "Workspace '"@ + slug + "':\n"@ + response,
    }
}

/// Lays out the summary of workspace `slug`.
pub fn render_workspace_details(slug: &str, details: Option<&WorkspaceDetails>, response_text: &str) -> (r: String)
    ensures
        r@ == workspace_details_text(
            slug@,
            match details {
                Some(d) => Some(d@),
                None => None,
            },
            response_text@,
        ),
{
    match details {
        None => {
            let mut s = "Workspace '".to_owned();
            push_str(&mut s, slug);
            push_str(&mut s, "':\n");
            push_str(&mut s, response_text);
            s
        },
        Some(d) => {
            let mut s = "Workspace: ".to_owned();
            push_str(&mut s, d.name.as_str());
            push_str(&mut s, "\nSlug: ");
            push_str(&mut s, d.slug.as_str());
            push_str(&mut s, "\nDocuments: ");
            push_decimal(&mut s, d.documents as u64);
            push_str(&mut s, "\nThreads: ");
            push_decimal(&mut s, d.threads as u64);
            push_str(&mut s, "\nCreated: ");
            push_str(&mut s, d.created.as_str());
            push_str(&mut s, "\nLast Updated: ");
            push_str(&mut s, d.updated.as_str());
            push_str(&mut s, "\nSettings:");
            let ghost views = pair_views(d.settings@);
            let ghost block = |k: nat| setting_line(views[k as int].0, views[k as int].1);
            let ghost header = s@;
            let mut i: usize = 0;
            while i < d.settings.len()
                invariant
                    0 <= i <= d.settings@.len(),
                    views == pair_views(d.settings@),
                    block == (|k: nat| setting_line(views[k as int].0, views[k as int].1)),
                    s@ == header + concat_blocks(i as nat, block),
                decreases d.settings@.len() - i,
            {
                push_str(&mut s, "\n  ");
                push_str(&mut s, d.settings[i].0.as_str());
                push_str(&mut s, ": ");
                push_str(&mut s, d.settings[i].1.as_str());
                assert(s@ =~= header + concat_blocks((i + 1) as nat, block));
                i = i + 1;
            }
            s
        },
    }
}

/// The length of the array at `pointer`, or 0.
pub open spec fn array_len_or_zero(text: Seq<char>, pointer: Seq<char>) -> nat {
    match array_len(text, pointer) {
        Some(n) => n,
        None => 0,
    }
}

/// How many workspace settings a summary shows.
pub open spec fn settings_count() -> nat {
    10
}

/// The JSON key (as a pointer step) of the `k`-th setting shown.
pub open spec fn setting_key(k: nat) -> Seq<char> {
    if k == 0 {
        "/chatMode"@
    } else if k == 1 {
        "/chatProvider"@
    } else if k == 2 {
        "/chatModel"@
    } else if k == 3 {
        "/openAiTemp"@
    } else if k == 4 {
        "/openAiHistory"@
    } else if k == 5 {
        "/similarityThreshold"@
    } else if k == 6 {
        "/topN"@
    } else if k == 7 {
        "/vectorSearchMode"@
    } else if k == 8 {
        "/queryRefusalResponse"@
    } else {
        "/openAiPrompt"@
    }
}

/// The label of the `k`-th setting shown.
pub open spec fn setting_label(k: nat) -> Seq<char> {
    if k == 0 {
        "Chat Mode"@
    } else if k == 1 {
        "Chat Provider"@
    } else if k == 2 {
        "Chat Model"@
    } else if k == 3 {
        "Temperature"@
    } else if k == 4 {
        "History Length"@
    } else if k == 5 {
        "Similarity Threshold"@
    } else if k == 6 {
        "Top N"@
    } else if k == 7 {
        "Vector Search Mode"@
    } else if k == 8 {
        "Query Refusal Response"@
    } else {
        "System Prompt"@
    }
}

/// The key and label of the `k`-th setting shown.
fn setting_name(k: usize) -> (r: (&'static str, &'static str))
    requires
        k < settings_count(),
    ensures
        r.0@ == setting_key(k as nat),
        r.1@ == setting_label(k as nat),
{
    if k == 0 {
        ("/chatMode", "Chat Mode")
    } else if k == 1 {
        ("/chatProvider", "Chat Provider")
    } else if k == 2 {
        ("/chatModel", "Chat Model")
    } else if k == 3 {
        ("/openAiTemp", "Temperature")
    } else if k == 4 {
        ("/openAiHistory", "History Length")
    } else if k == 5 {
        ("/similarityThreshold", "Similarity Threshold")
    } else if k == 6 {
        ("/topN", "Top N")
    } else if k == 7 {
        ("/vectorSearchMode", "Vector Search Mode")
    } else if k == 8 {
        ("/queryRefusalResponse", "Query Refusal Response")
    } else {
        ("/openAiPrompt", "System Prompt")
    }
}

/// How a setting's value is shown: strings as they are, integers in
/// decimal, other numbers with three decimals, booleans as `true`/`false`,
/// `(not set)` where the value is missing or null, and `(structured value)`
/// for arrays and objects.
pub open spec fn setting_value(text: Seq<char>, pointer: Seq<char>) -> Seq<char> {
    match json_pointer(text, pointer) {
        Some(JsonLeafView::Str(s)) => s,
        Some(JsonLeafView::Bool(b)) => if b {
            "true"@
        } else {
            "false"@
        },
        Some(JsonLeafView::Number(Some(i))) => signed_decimal(i as int),
        Some(JsonLeafView::Number(None)) => match json_number_fixed3(text, pointer) {
            Some(t) => t,
            None => "(not set)"@,
        },
        Some(JsonLeafView::Array(_)) => "(structured value)"@,
        Some(JsonLeafView::Object) => "(structured value)"@,
        _ => "(not set)"@,
    }
}

/// Reads how the setting at `pointer` is shown.
fn setting_value_at(doc: &JsonDoc, pointer: &str) -> (r: String)
    ensures
        r@ == setting_value(doc@, pointer@),
{
    match json_at(doc, pointer) {
        Some(JsonLeaf::Str(s)) => s,
        Some(JsonLeaf::Bool(b)) => if b {
            "true".to_owned()
        } else {
            "false".to_owned()
        },
        Some(JsonLeaf::Number(Some(i))) => {
            let mut s = String::new();
            push_signed_decimal(&mut s, i);
            assert(s@ =~= signed_decimal(i as int));
            s
        },
        Some(JsonLeaf::Number(None)) => match json_fixed3_at(doc, pointer) {
            Some(t) => t,
            None => "(not set)".to_owned(),
        },
        Some(JsonLeaf::Array(_)) => "(structured value)".to_owned(),
        Some(JsonLeaf::Object) => "(structured value)".to_owned(),
        _ => "(not set)".to_owned(),
    }
}

/// The settings of the workspace at `ws`, as (label, value) pairs.
pub open spec fn workspace_settings(text: Seq<char>, ws: Seq<char>) -> Seq<(Seq<char>, Seq<char>)> {
    Seq::new(
        settings_count(),
        |k: int| (setting_label(k as nat), setting_value(text, ws + setting_key(k as nat))),
    )
}

/// The summary of the workspace in the parsed reply `text`, when it holds a
/// workspace: missing name reads as `slug`, other missing strings as empty,
/// missing document and thread arrays as 0; its settings follow.
pub open spec fn workspace_summary(text: Seq<char>, slug: Seq<char>) -> Option<WorkspaceDetailsView> {
    match workspace_pointer(text) {
        Some(ws) => Some(
            WorkspaceDetailsView {
                name: str_or(text, ws + "/name"@, slug),
                slug: str_or(text, ws + "/slug"@, ""@),
                documents: array_len_or_zero(text, ws + "/documents"@),
                threads: array_len_or_zero(text, ws + "/threads"@),
                created: str_or(text, ws + "/createdAt"@, ""@),
                updated: str_or(text, ws + "/lastUpdatedAt"@, ""@),
                settings: workspace_settings(text, ws),
            },
        ),
        None => None,
    }
}

/// The summary of the workspace in reply `text`, when it parses and holds a
/// workspace.
pub open spec fn spec_workspace_details(text: Seq<char>, slug: Seq<char>) -> Option<WorkspaceDetailsView> {
    if json_parses(text) {
        workspace_summary(text, slug)
    } else {
        None
    }
}

/// The length of the array at `pointer`, or 0.
fn array_len_at_or_zero(doc: &JsonDoc, pointer: &str) -> (r: usize)
    ensures
        r as nat == array_len_or_zero(doc@, pointer@),
{
    match array_len_at(doc, pointer) {
        Some(n) => n,
        None => 0,
    }
}

/// Reads the settings of the workspace at `ws`.
fn read_settings(doc: &JsonDoc, ws: &str) -> (r: Vec<(String, String)>)
    ensures
        pair_views(r@) == workspace_settings(doc@, ws@),
{
    let mut settings: Vec<(String, String)> = Vec::new();
    let mut k: usize = 0;
    while k < 10
        invariant
            0 <= k <= 10,
            settings@.len() == k,
            forall|j: int|
                0 <= j < k ==> (#[trigger] settings@[j]).0@ == setting_label(j as nat)
                    && settings@[j].1@ == setting_value(doc@, ws@ + setting_key(j as nat)),
        decreases 10 - k,
    {
        let (key, label) = setting_name(k);
        let value = setting_value_at(doc, join_pointer(ws, key).as_str());
        settings.push((label.to_owned(), value));
        k = k + 1;
    }
    assert(pair_views(settings@) =~= workspace_settings(doc@, ws@));
    settings
}

/// Reads the summary of workspace `slug` out of a parsed workspace reply.
pub fn workspace_details(doc: &JsonDoc, slug: &str) -> (r: Option<WorkspaceDetails>)
    ensures
        match workspace_summary(doc@, slug@) {
            Some(v) => r matches Some(d) && d@ == v,
            None => r is None,
        },
{
    let ws = match find_workspace(doc) {
        Some(ws) => ws,
        None => return None,
    };
    proof {
        reveal_strlit("");
    }
    let d = WorkspaceDetails {
        name: string_at_or(doc, join_pointer(ws, "/name").as_str(), slug),
        slug: string_at_or(doc, join_pointer(ws, "/slug").as_str(), ""),
        documents: array_len_at_or_zero(doc, join_pointer(ws, "/documents").as_str()),
        threads: array_len_at_or_zero(doc, join_pointer(ws, "/threads").as_str()),
        created: string_at_or(doc, join_pointer(ws, "/createdAt").as_str(), ""),
        updated: string_at_or(doc, join_pointer(ws, "/lastUpdatedAt").as_str(), ""),
        settings: read_settings(doc, ws),
    };
    Some(d)
}

/// Renders a workspace reply as the workspace's summary.
pub fn format_workspace_details(response_text: &str, slug: &str) -> (r: Result<String, crate::api::ToolFailure>)
    ensures
        r matches Ok(s) && s@ == workspace_details_text(
            slug@,
            spec_workspace_details(response_text@, slug@),
            response_text@,
        ),
{
    let details = match parse_json(response_text) {
        Some(doc) => workspace_details(&doc, slug),
        None => None,
    };
    let out = match &details {
        Some(d) => render_workspace_details(slug, Some(d), response_text),
        None => render_workspace_details(slug, None, response_text),
    };
    Ok(out)
}

/// A workspace as listed to the client.
#[derive(Debug, Clone)]
pub struct WorkspaceEntry {
    pub name: String,
    pub slug: String,
}

/// The line for the workspace numbered `number` (counting from 1).
pub open spec fn workspace_line(number: nat, name: Seq<char>, slug: Seq<char>) -> Seq<char> {
    decimal(number) + ". "@ + name + " (slug: "@ + slug + ")\n"@
}

/// The names and slugs of a sequence of workspace entries.
pub open spec fn workspace_entry_views(ws: Seq<WorkspaceEntry>) -> Seq<(Seq<char>, Seq<char>)> {
    ws.map_values(|w: WorkspaceEntry| (w.name@, w.slug@))
}

/// The text listing all workspaces; `entries` is `None` when the reply
/// `response` had no `workspaces` array.
pub open spec fn workspace_list_text(
    entries: Option<Seq<(Seq<char>, Seq<char>)>>,
    response: Seq<char>,
) -> Seq<char> {
    match entries {
        Some(es) => if es.len() == 0 {
            "No workspaces found."@
        } else {
            "Found "@ + decimal(es.len()) + " workspace(s):\n\n"@ + concat_blocks(
                es.len(),
                |k: nat| workspace_line(k + 1, es[k as int].0, es[k as int].1),
            )
        },
        None => "Workspaces:\n"@ + response,
    }
}

/// Lays out the list of workspaces.
pub fn render_workspace_list(entries: Option<&Vec<WorkspaceEntry>>, response_text: &str) -> (r: String)
    ensures
        r@ == workspace_list_text(
            match entries {
                Some(es) => Some(workspace_entry_views(es@)),
                None => None,
            },
            response_text@,
        ),
{
    match entries {
        None => {
            let mut s = "Workspaces:\n".to_owned();
            push_str(&mut s, response_text);
            s
        },
        Some(es) => {
            if es.len() == 0 {
                return "No workspaces found.".to_owned();
            }
            let ghost views = workspace_entry_views(es@);
            let ghost block = |k: nat| workspace_line(k + 1, views[k as int].0, views[k as int].1);
            let mut s = "Found ".to_owned();
            push_decimal(&mut s, es.len() as u64);
            push_str(&mut s, " workspace(s):\n\n");
            let ghost header = s@;
            let mut i: usize = 0;
            while i < es.len()
                invariant
                    0 <= i <= es@.len(),
                    views == workspace_entry_views(es@),
                    block == (|k: nat| workspace_line(k + 1, views[k as int].0, views[k as int].1)),
                    s@ == header + concat_blocks(i as nat, block),
                decreases es@.len() - i,
            {
                let w = &es[i];
                push_decimal(&mut s, (i + 1) as u64);
                push_str(&mut s, ". ");
                push_str(&mut s, w.name.as_str());
                push_str(&mut s, " (slug: ");
                push_str(&mut s, w.slug.as_str());
                push_str(&mut s, ")\n");
                assert(s@ =~= header + concat_blocks((i + 1) as nat, block));
                i = i + 1;
            }
            s
        },
    }
}

/// The name and slug the `i`-th workspace of a list reply shows: `unnamed`
/// and `n/a` where missing.
pub open spec fn spec_workspace_entry(text: Seq<char>, i: nat) -> (Seq<char>, Seq<char>) {
    (
        str_or(text, item_pointer("/workspaces"@, i, "/name"@), "unnamed"@),
        str_or(text, item_pointer("/workspaces"@, i, "/slug"@), "n/a"@),
    )
}

/// The workspaces of list reply `text`, when it parses and has a
/// `workspaces` array.
pub open spec fn spec_workspace_entries(text: Seq<char>) -> Option<Seq<(Seq<char>, Seq<char>)>> {
    if json_parses(text) {
        match array_len(text, "/workspaces"@) {
            Some(n) => Some(Seq::new(n, |i: int| spec_workspace_entry(text, i as nat))),
            None => None,
        }
    } else {
        None
    }
}

/// Reads the workspaces out of a parsed list reply.
pub fn workspace_entries(doc: &JsonDoc) -> (r: Option<Vec<WorkspaceEntry>>)
    ensures
        match array_len(doc@, "/workspaces"@) {
            Some(n) => r matches Some(es) && workspace_entry_views(es@) == Seq::new(
                n,
                |i: int| spec_workspace_entry(doc@, i as nat),
            ),
            None => r is None,
        },
{
    let n = match array_len_at(doc, "/workspaces") {
        Some(n) => n,
        None => return None,
    };
    let mut entries: Vec<WorkspaceEntry> = Vec::new();
    let mut i: usize = 0;
    while i < n
        invariant
            0 <= i <= n,
            entries@.len() == i,
            forall|j: int|
                0 <= j < i ==> (#[trigger] entries@[j]).name@ == spec_workspace_entry(doc@, j as nat).0
                    && entries@[j].slug@ == spec_workspace_entry(doc@, j as nat).1,
        decreases n - i,
    {
        let name = string_at_or(doc, make_item_pointer("/workspaces", i, "/name").as_str(), "unnamed");
        let slug = string_at_or(doc, make_item_pointer("/workspaces", i, "/slug").as_str(), "n/a");
        entries.push(WorkspaceEntry { name, slug });
        i = i + 1;
    }
    assert(workspace_entry_views(entries@) =~= Seq::new(
        n as nat,
        |i: int| spec_workspace_entry(doc@, i as nat),
    ));
    Some(entries)
}

/// Renders the reply to a workspace list request.
pub fn format_list_workspaces(response_text: &str) -> (r: Result<String, crate::api::ToolFailure>)
    ensures
        r matches Ok(s) && s@ == workspace_list_text(
            spec_workspace_entries(response_text@),
            response_text@,
        ),
{
    let entries = match parse_json(response_text) {
        Some(doc) => workspace_entries(&doc),
        None => None,
    };
    let out = match &entries {
        Some(es) => render_workspace_list(Some(es), response_text),
        None => render_workspace_list(None, response_text),
    };
    Ok(out)
}

/// The text confirming the creation of workspace `name`; `slug` is the new
/// workspace's slug when the reply `response` named one.
pub open spec fn create_workspace_text(name: Seq<char>, slug: Option<Seq<char>>, response: Seq<char>) -> Seq<char> {
    match slug {
        Some(s) => "Successfully created workspace '"@ + name + "' with slug '"@ + s + "'."@,
        None => "Successfully created workspace '"@ + name + "'.\n\nResponse: "@ + response,
    }
}

/// Lays out the confirmation of a workspace creation.
pub fn render_create_workspace(name: &str, slug: Option<&str>, response_text: &str) -> (r: String)
    ensures
        r@ == create_workspace_text(
            name@,
            match slug {
                Some(s) => Some(s@),
                None => None,
            },
            response_text@,
        ),
{
    let mut s = "Successfully created workspace '".to_owned();
    push_str(&mut s, name);
    match slug {
        Some(sl) => {
            push_str(&mut s, "' with slug '");
            push_str(&mut s, sl);
            push_str(&mut s, "'.");
        },
        None => {
            push_str(&mut s, "'.\n\nResponse: ");
            push_str(&mut s, response_text);
        },
    }
    s
}

/// The slug a workspace-creation reply names: the string at
/// `workspace.slug`, when the reply parses.
pub open spec fn spec_created_slug(text: Seq<char>) -> Option<Seq<char>> {
    if json_parses(text) {
        match json_pointer(text, "/workspace/slug"@) {
            Some(JsonLeafView::Str(s)) => Some(s),
            _ => None,
        }
    } else {
        None
    }
}

/// Renders the reply to the creation of workspace `name`.
pub fn format_create_workspace(response_text: &str, name: &str) -> (r: Result<String, crate::api::ToolFailure>)
    ensures
        r matches Ok(s) && s@ == create_workspace_text(
            name@,
            spec_created_slug(response_text@),
            response_text@,
        ),
{
    let slug: Option<String> = match parse_json(response_text) {
        Some(doc) => match json_at(&doc, "/workspace/slug") {
            Some(JsonLeaf::Str(s)) => Some(s),
            _ => None,
        },
        None => None,
    };
    let out = match &slug {
        Some(s) => render_create_workspace(name, Some(s.as_str()), response_text),
        None => render_create_workspace(name, None, response_text),
    };
    Ok(out)
}


/// Whether `part` occurs in `whole` starting at offset `k`.
pub open spec fn occurs_at(whole: Seq<char>, part: Seq<char>, k: int) -> bool {
    0 <= k && k + part.len() <= whole.len() && whole.subrange(k, k + part.len()) == part
}

/// The blocks of a shorter run are a prefix of the blocks of a longer one.
pub proof fn lemma_concat_blocks_prefix(n: nat, m: nat, block: spec_fn(nat) -> Seq<char>)
    requires
        m <= n,
    ensures
        concat_blocks(m, block).len() <= concat_blocks(n, block).len(),
        concat_blocks(n, block).subrange(0, concat_blocks(m, block).len() as int) == concat_blocks(
            m,
            block,
        ),
    decreases n,
{
    if n > m {
        lemma_concat_blocks_prefix((n - 1) as nat, m, block);
        let a = concat_blocks((n - 1) as nat, block);
        let c = concat_blocks(m, block);
        assert((a + block((n - 1) as nat)).subrange(0, c.len() as int) =~= a.subrange(
            0,
            c.len() as int,
        ));
    } else {
        assert(concat_blocks(n, block).subrange(0, concat_blocks(n, block).len() as int)
            =~= concat_blocks(n, block));
    }
}

/// Search results are shown in full: the text of every hit occurs, whole
/// and untruncated, in the rendered output.
pub proof fn lemma_search_text_shown_in_full(
    slug: Seq<char>,
    hits: Seq<SearchHitView>,
    response: Seq<char>,
    i: int,
)
    requires
        0 <= i < hits.len(),
    ensures
        exists|k: int| occurs_at(search_results_text(slug, Some(hits), response), hits[i].text, k),
{
    let n = hits.len();
    let f = |k: nat| hit_block(k + 1, hits[k as int]);
    let header = "Found "@ + decimal(n) + " result(s) in workspace '"@ + slug + "':\n\n"@;
    let all = concat_blocks(n, f);
    let out = search_results_text(slug, Some(hits), response);
    assert(out == header + all);
    lemma_concat_blocks_prefix(n, (i + 1) as nat, f);
    let before = concat_blocks(i as nat, f);
    let upto = concat_blocks((i + 1) as nat, f);
    let h = hits[i];
    let pre = decimal((i + 1) as nat) + ". [Score: "@ + h.score + ", Distance: "@ + h.distance
        + "] "@ + h.title + "\n   "@;
    assert(upto == before + f(i as nat));
    assert(f(i as nat) =~= pre + h.text + "\n\n"@);
    let k: int = (header.len() + before.len() + pre.len()) as int;
    assert(all.subrange(0, upto.len() as int) == upto);
    assert forall|j: int| 0 <= j < h.text.len() implies out[k + j] == h.text[j] by {
        assert(out[k + j] == all[before.len() + pre.len() + j]);
        assert(all[before.len() + pre.len() + j] == all.subrange(0, upto.len() as int)[before.len()
            + pre.len() + j]);
        assert(upto[before.len() + pre.len() + j] == f(i as nat)[pre.len() + j]);
    }
    assert(out.subrange(k, k + h.text.len()) =~= h.text);
    assert(occurs_at(out, h.text, k));
}


/// Runs of blocks that agree block by block are equal.
pub proof fn lemma_concat_blocks_ext(n: nat, f: spec_fn(nat) -> Seq<char>, g: spec_fn(nat) -> Seq<char>)
    requires
        forall|k: nat| k < n ==> #[trigger] f(k) == g(k),
    ensures
        concat_blocks(n, f) == concat_blocks(n, g),
    decreases n,
{
    if n > 0 {
        lemma_concat_blocks_ext((n - 1) as nat, f, g);
    }
}

/// A search reply whose `results` array has `n` elements is shown as `n`
/// hits, and the hit numbered `k + 1` shows the score, distance, title and
/// text of the `k`-th result itself, read from `/results/k` (scores and
/// distances with three decimals, `0.000` where missing; empty title and
/// text where missing).
pub proof fn lemma_search_shows_each_result(slug: Seq<char>, text: Seq<char>, n: nat)
    requires
        json_parses(text),
        json_pointer(text, "/results"@) == Some(JsonLeafView::Array(n)),
    ensures
        search_results_text(slug, spec_search_hits(text), text) == (if n == 0 {
            "No results found in workspace '"@ + slug + "'."@
        } else {
            "Found "@ + decimal(n) + " result(s) in workspace '"@ + slug + "':\n\n"@ + concat_blocks(
                n,
                |k: nat|
                    decimal(k + 1) + ". [Score: "@ + fixed3_or_zero(
                        text,
                        item_pointer("/results"@, k, "/score"@),
                    ) + ", Distance: "@ + fixed3_or_zero(text, item_pointer("/results"@, k, "/distance"@))
                        + "] "@ + str_or(text, item_pointer("/results"@, k, "/metadata/title"@), ""@)
                        + "\n   "@ + str_or(text, item_pointer("/results"@, k, "/text"@), ""@)
                        + "\n\n"@,
            )
        }),
{
    reveal_strlit("");
    let hs = Seq::new(n, |i: int| spec_search_hit(text, i as nat));
    assert(spec_search_hits(text) == Some(hs));
    let f = |k: nat| hit_block(k + 1, hs[k as int]);
    let g = |k: nat|
        decimal(k + 1) + ". [Score: "@ + fixed3_or_zero(text, item_pointer("/results"@, k, "/score"@))
            + ", Distance: "@ + fixed3_or_zero(text, item_pointer("/results"@, k, "/distance"@)) + "] "@
            + str_or(text, item_pointer("/results"@, k, "/metadata/title"@), ""@) + "\n   "@ + str_or(
            text,
            item_pointer("/results"@, k, "/text"@),
            ""@,
        ) + "\n\n"@;
    assert forall|k: nat| k < n implies #[trigger] f(k) == g(k) by {
        assert(hs[k as int] == spec_search_hit(text, k));
        assert(""@ =~= Seq::<char>::empty());
    }
    lemma_concat_blocks_ext(n, f, g);
}

/// A workspace reply whose workspace (under `workspace`, or else the first
/// element of `workspaces`) has a `documents` array of `n` elements is shown
/// as `n` documents, and the document numbered `k + 1` shows the id, title,
/// docpath and creation date of the `k`-th document itself: its `createdAt`
/// (empty where missing) and no other date.
pub proof fn lemma_document_list_shows_each_document(slug: Seq<char>, text: Seq<char>, ws: Seq<char>, n: nat)
    requires
        json_parses(text),
        (ws == "/workspace"@ && json_pointer(text, "/workspace"@) is Some) || (ws == "/workspaces/0"@
            && json_pointer(text, "/workspace"@) is None && (json_pointer(text, "/workspaces"@) matches Some(
            JsonLeafView::Array(m),
        ) && m > 0)),
        json_pointer(text, ws + "/documents"@) == Some(JsonLeafView::Array(n)),
    ensures
        document_list_text(slug, spec_document_listing(text, slug), text) == (if n == 0 {
            "Workspace '"@ + str_or(text, ws + "/name"@, slug) + "' has no documents."@
        } else {
            "Workspace '"@ + str_or(text, ws + "/name"@, slug) + "' has "@ + decimal(n)
                + " document(s):\n\n"@ + concat_blocks(
                n,
                |k: nat|
                    decimal(k + 1) + ". ["@ + signed_decimal(
                        int_or_zero(text, item_pointer(ws + "/documents"@, k, "/id"@)) as int,
                    ) + "] "@ + metadata_title(text, item_pointer(ws + "/documents"@, k, "/metadata"@))
                        + "\n   Docpath: "@ + str_or(
                        text,
                        item_pointer(ws + "/documents"@, k, "/docpath"@),
                        "unknown"@,
                    ) + "\n   Created: "@ + str_or(
                        text,
                        item_pointer(ws + "/documents"@, k, "/createdAt"@),
                        ""@,
                    ) + "\n\n"@,
            )
        }),
{
    assert(workspace_pointer(text) == Some(ws));
    let docs = Seq::new(n, |i: int| spec_document_entry(text, ws, i as nat));
    assert(spec_document_listing(text, slug) == Some((str_or(text, ws + "/name"@, slug), docs)));
    let f = |k: nat| document_block(k + 1, docs[k as int]);
    let g = |k: nat|
        decimal(k + 1) + ". ["@ + signed_decimal(
            int_or_zero(text, item_pointer(ws + "/documents"@, k, "/id"@)) as int,
        ) + "] "@ + metadata_title(text, item_pointer(ws + "/documents"@, k, "/metadata"@))
            + "\n   Docpath: "@ + str_or(text, item_pointer(ws + "/documents"@, k, "/docpath"@), "unknown"@)
            + "\n   Created: "@ + str_or(text, item_pointer(ws + "/documents"@, k, "/createdAt"@), ""@)
            + "\n\n"@;
    assert forall|k: nat| k < n implies #[trigger] f(k) == g(k) by {
        assert(docs[k as int] == spec_document_entry(text, ws, k));
    }
    lemma_concat_blocks_ext(n, f, g);
}

/// A list reply whose `workspaces` array has `n` elements is shown as
/// "Found n workspace(s)" followed by exactly `n` lines, the line numbered
/// `k + 1` giving the name and slug of the `k`-th workspace (`unnamed` and
/// `n/a` where missing); an empty array is shown as "No workspaces found.".
pub proof fn lemma_list_shows_every_workspace(text: Seq<char>, n: nat)
    requires
        json_parses(text),
        json_pointer(text, "/workspaces"@) == Some(JsonLeafView::Array(n)),
    ensures
        workspace_list_text(spec_workspace_entries(text), text) == (if n == 0 {
            "No workspaces found."@
        } else {
            "Found "@ + decimal(n) + " workspace(s):\n\n"@ + concat_blocks(
                n,
                |k: nat|
                    decimal(k + 1) + ". "@ + str_or(text, item_pointer("/workspaces"@, k, "/name"@), "unnamed"@)
                        + " (slug: "@ + str_or(text, item_pointer("/workspaces"@, k, "/slug"@), "n/a"@)
                        + ")\n"@,
            )
        }),
{
    let es = Seq::new(n, |i: int| spec_workspace_entry(text, i as nat));
    assert(spec_workspace_entries(text) == Some(es));
    let f = |k: nat| workspace_line(k + 1, es[k as int].0, es[k as int].1);
    let g = |k: nat|
        decimal(k + 1) + ". "@ + str_or(text, item_pointer("/workspaces"@, k, "/name"@), "unnamed"@)
            + " (slug: "@ + str_or(text, item_pointer("/workspaces"@, k, "/slug"@), "n/a"@) + ")\n"@;
    assert forall|k: nat| k < n implies #[trigger] f(k) == g(k) by {
        assert(es[k as int] == spec_workspace_entry(text, k));
    }
    lemma_concat_blocks_ext(n, f, g);
}

/// A workspace reply holding a workspace (under `workspace`, or else the
/// first element of `workspaces`) is summarised from that workspace's own
/// fields: its name (or `slug` where missing), slug, the lengths of its
/// `documents` and `threads` arrays, its `createdAt` on the Created line and
/// its `lastUpdatedAt` on the Last Updated line, then every setting, in
/// order, each with the value found under its own key.
pub proof fn lemma_details_show_workspace_fields(slug: Seq<char>, text: Seq<char>, ws: Seq<char>)
    requires
        json_parses(text),
        (ws == "/workspace"@ && json_pointer(text, "/workspace"@) is Some) || (ws == "/workspaces/0"@
            && json_pointer(text, "/workspace"@) is None && (json_pointer(text, "/workspaces"@) matches Some(
            JsonLeafView::Array(m),
        ) && m > 0)),
    ensures
        workspace_details_text(slug, spec_workspace_details(text, slug), text) == "Workspace: "@ + str_or(
            text,
            ws + "/name"@,
            slug,
        ) + "\nSlug: "@ + str_or(text, ws + "/slug"@, ""@) + "\nDocuments: "@ + decimal(
            array_len_or_zero(text, ws + "/documents"@),
        ) + "\nThreads: "@ + decimal(array_len_or_zero(text, ws + "/threads"@)) + "\nCreated: "@
            + str_or(text, ws + "/createdAt"@, ""@) + "\nLast Updated: "@ + str_or(
            text,
            ws + "/lastUpdatedAt"@,
            ""@,
        ) + "\nSettings:"@ + concat_blocks(
            settings_count(),
            |k: nat| "\n  "@ + setting_label(k) + ": "@ + setting_value(text, ws + setting_key(k)),
        ),
{
    assert(workspace_pointer(text) == Some(ws));
    let d = spec_workspace_details(text, slug)->0;
    assert(d.settings.len() == settings_count());
    let f = |k: nat| setting_line(d.settings[k as int].0, d.settings[k as int].1);
    let g = |k: nat| "\n  "@ + setting_label(k) + ": "@ + setting_value(text, ws + setting_key(k));
    assert forall|k: nat| k < settings_count() implies #[trigger] f(k) == g(k) by {}
    lemma_concat_blocks_ext(settings_count(), f, g);
}

/// A reply that is not JSON is shown verbatim after a heading, whatever was
/// asked: a search, a document list, a workspace summary, the workspace list
/// or the confirmation of a creation.
pub proof fn lemma_unparsed_reply_shown_verbatim(slug: Seq<char>, name: Seq<char>, text: Seq<char>)
    requires
        !json_parses(text),
    ensures
        search_results_text(slug, spec_search_hits(text), text) == "Search results for workspace '"@
            + slug + "':\n"@ + text,
        document_list_text(slug, spec_document_listing(text, slug), text) == "Workspace '"@ + slug
            + "':\n"@ + text,
        workspace_details_text(slug, spec_workspace_details(text, slug), text) == "Workspace '"@ + slug
            + "':\n"@ + text,
        workspace_list_text(spec_workspace_entries(text), text) == "Workspaces:\n"@ + text,
        create_workspace_text(name, spec_created_slug(text), text) == "Successfully created workspace '"@
            + name + "'.\n\nResponse: "@ + text,
{
}

/// The confirmation of a workspace creation names the slug the reply gives
/// at `workspace.slug` when there is one, and shows the reply itself
/// otherwise.
pub proof fn lemma_created_slug_from_reply(name: Seq<char>, text: Seq<char>)
    requires
        json_parses(text),
    ensures
        create_workspace_text(name, spec_created_slug(text), text) == match json_pointer(
            text,
            "/workspace/slug"@,
        ) {
            Some(JsonLeafView::Str(s)) => "Successfully created workspace '"@ + name + "' with slug '"@ + s
                + "'."@,
            _ => "Successfully created workspace '"@ + name + "'.\n\nResponse: "@ + text,
        },
{
}

} // verus!
