//! Plain request and response records exchanged with the snippet service.

use vstd::prelude::*;

verus! {

#[derive(Debug, Clone)]
pub struct CreateSnippetRequest {
    pub trigger: String,
    pub replacement: String,
    pub tags: Option<Vec<String>>,
}

#[derive(Debug, Clone)]
pub struct SnippetListRequest {
    pub search_term: Option<String>,
    pub tags: Option<Vec<String>>,
    pub is_active: Option<bool>,
    pub limit: Option<u32>,
    pub offset: Option<u32>,
    pub sort_by: Option<String>,
    pub sort_order: Option<String>,
}

#[derive(Debug, Clone, Copy, PartialEq, Eq, Structural)]
pub struct PageInfo {
    pub has_next_page: bool,
    pub has_previous_page: bool,
    pub total_pages: u32,
    pub current_page: u32,
}

/// A request to resolve and expand a trigger.
#[derive(Debug, Clone)]
pub struct ExpansionRequest {
    pub trigger: String,
    /// The text typed around the trigger, if known.
    pub context: Option<String>,
}

/// The snippet service's answer to an [`ExpansionRequest`].
#[derive(Debug, Clone)]
pub struct ExpansionResponse {
    pub success: bool,
    pub expanded_text: Option<String>,
    pub error_message: Option<String>,
}

#[derive(Debug, Clone)]
pub struct ImportSnippetsRequest {
    pub snippets: Vec<ImportSnippetData>,
    pub overwrite_existing: bool,
}

#[derive(Debug, Clone)]
pub struct ImportSnippetData {
    pub trigger: String,
    pub replacement: String,
    pub tags: Option<Vec<String>>,
}

#[derive(Debug, Clone)]
pub struct ImportResult {
    pub imported_count: u32,
    pub skipped_count: u32,
    pub error_count: u32,
    pub errors: Vec<String>,
}

#[derive(Debug, Clone)]
pub struct ExportSnippetsRequest {
    pub include_inactive: bool,
    pub tags_filter: Option<Vec<String>>,
}

} // verus!
