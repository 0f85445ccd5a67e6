//! A snippet query with a fixed order and, by default, a bounded page of
//! active snippets.

use vstd::prelude::*;

verus! {

/// What snippets are ordered by.
#[derive(Debug, Clone, Copy, PartialEq, Eq, Structural)]
pub enum SortBy {
    CreatedAt,
    UpdatedAt,
    UsageCount,
    Trigger,
}

#[derive(Debug, Clone, Copy, PartialEq, Eq, Structural)]
pub enum SortOrder {
    Ascending,
    Descending,
}

/// Filters, order and page of a snippet listing.
#[derive(Debug, Clone)]
pub struct SnippetQuery {
    pub search_term: Option<String>,
    pub tags: Vec<String>,
    pub is_active: Option<bool>,
    pub limit: Option<u32>,
    pub offset: Option<u32>,
    pub sort_by: SortBy,
    pub sort_order: SortOrder,
}

/// Active snippets only, the hundred most recently updated first.
pub open spec fn default_query(q: SnippetQuery) -> bool {
    &&& q.search_term is None
    &&& q.tags@.len() == 0
    &&& q.is_active == Some(true)
    &&& q.limit == Some(100u32)
    &&& q.offset is None
    &&& q.sort_by == SortBy::UpdatedAt
    &&& q.sort_order == SortOrder::Descending
}

impl Default for SnippetQuery {
    fn default() -> (r: Self)
        ensures
            default_query(r),
    {
        SnippetQuery {
            search_term: None,
            tags: Vec::new(),
            is_active: Some(true),
            limit: Some(100),
            offset: None,
            sort_by: SortBy::UpdatedAt,
            sort_order: SortOrder::Descending,
        }
    }
}

impl SnippetQuery {
    pub fn new() -> (r: Self)
        ensures
            default_query(r),
    {
        Self::default()
    }

    pub fn with_search_term(self, term: String) -> (r: Self)
        ensures
            r == (SnippetQuery { search_term: Some(term), ..self }),
    {
        SnippetQuery { search_term: Some(term), ..self }
    }

    pub fn with_tags(self, tags: Vec<String>) -> (r: Self)
        ensures
            r == (SnippetQuery { tags, ..self }),
    {
        SnippetQuery { tags, ..self }
    }

    pub fn with_active_only(self) -> (r: Self)
        ensures
            r == (SnippetQuery { is_active: Some(true), ..self }),
    {
        SnippetQuery { is_active: Some(true), ..self }
    }

    /// Lists snippets whatever their state.
    pub fn with_all(self) -> (r: Self)
        ensures
            r == (SnippetQuery { is_active: None, ..self }),
    {
        SnippetQuery { is_active: None, ..self }
    }

    pub fn with_limit(self, limit: u32) -> (r: Self)
        ensures
            r == (SnippetQuery { limit: Some(limit), ..self }),
    {
        SnippetQuery { limit: Some(limit), ..self }
    }

    pub fn with_offset(self, offset: u32) -> (r: Self)
        ensures
            r == (SnippetQuery { offset: Some(offset), ..self }),
    {
        SnippetQuery { offset: Some(offset), ..self }
    }

    /// Most used first.
    pub fn sort_by_usage(self) -> (r: Self)
        ensures
            r == (SnippetQuery {
                sort_by: SortBy::UsageCount,
                sort_order: SortOrder::Descending,
                ..self
            }),
    {
        SnippetQuery { sort_by: SortBy::UsageCount, sort_order: SortOrder::Descending, ..self }
    }

    /// Newest first.
    pub fn sort_by_created(self) -> (r: Self)
        ensures
            r == (SnippetQuery {
                sort_by: SortBy::CreatedAt,
                sort_order: SortOrder::Descending,
                ..self
            }),
    {
        SnippetQuery { sort_by: SortBy::CreatedAt, sort_order: SortOrder::Descending, ..self }
    }

    /// By trigger, in ascending order.
    pub fn sort_alphabetically(self) -> (r: Self)
        ensures
            r == (SnippetQuery { sort_by: SortBy::Trigger, sort_order: SortOrder::Ascending, ..self }),
    {
        SnippetQuery { sort_by: SortBy::Trigger, sort_order: SortOrder::Ascending, ..self }
    }
}

} // verus!
