//! A query over stored snippets, where every criterion is optional.

use vstd::prelude::*;

verus! {

/// What snippets are ordered by.
#[derive(Debug, Clone, Copy, PartialEq, Eq, Structural)]
pub enum SortBy {
    Trigger,
    CreatedAt,
    UpdatedAt,
    UsageCount,
}

impl Default for SortBy {
    fn default() -> (r: Self)
        ensures
            r == SortBy::UpdatedAt,
    {
        SortBy::UpdatedAt
    }
}

#[derive(Debug, Clone, Copy, PartialEq, Eq, Structural)]
pub enum SortOrder {
    Asc,
    Desc,
}

impl Default for SortOrder {
    fn default() -> (r: Self)
        ensures
            r == SortOrder::Desc,
    {
        SortOrder::Desc
    }
}

/// Filters, order and page of a snippet listing.
#[derive(Debug, Clone)]
pub struct SnippetQuery {
    pub search: Option<String>,
    pub tags: Vec<String>,
    pub is_active: Option<bool>,
    pub sort_by: Option<SortBy>,
    pub sort_order: Option<SortOrder>,
    pub limit: Option<u32>,
    pub offset: Option<u32>,
}

/// No filter, newest update first, no page bounds.
pub open spec fn default_query(q: SnippetQuery) -> bool {
    &&& q.search is None
    &&& q.tags@.len() == 0
    &&& q.is_active is None
    &&& q.sort_by == Some(SortBy::UpdatedAt)
    &&& q.sort_order == Some(SortOrder::Desc)
    &&& q.limit is None
    &&& q.offset is None
}

impl Default for SnippetQuery {
    fn default() -> (r: Self)
        ensures
            default_query(r),
    {
        SnippetQuery {
            search: None,
            tags: Vec::new(),
            is_active: None,
            sort_by: Some(SortBy::UpdatedAt),
            sort_order: Some(SortOrder::Desc),
            limit: None,
            offset: None,
        }
    }
}

impl SnippetQuery {
    pub fn new() -> (r: Self)
        ensures
            default_query(r),
    {
        Self::default()
    }

    pub fn with_search(self, search: String) -> (r: Self)
        ensures
            r == (SnippetQuery { search: Some(search), ..self }),
    {
        SnippetQuery { search: Some(search), ..self }
    }

    pub fn with_tags(self, tags: Vec<String>) -> (r: Self)
        ensures
            r == (SnippetQuery { tags, ..self }),
    {
        SnippetQuery { tags, ..self }
    }

    pub fn with_active(self, is_active: bool) -> (r: Self)
        ensures
            r == (SnippetQuery { is_active: Some(is_active), ..self }),
    {
        SnippetQuery { is_active: Some(is_active), ..self }
    }

    pub fn with_sort(self, sort_by: SortBy, sort_order: SortOrder) -> (r: Self)
        ensures
            r == (SnippetQuery { sort_by: Some(sort_by), sort_order: Some(sort_order), ..self }),
    {
        SnippetQuery { sort_by: Some(sort_by), sort_order: Some(sort_order), ..self }
    }

    pub fn with_pagination(self, limit: u32, offset: u32) -> (r: Self)
        ensures
            r == (SnippetQuery { limit: Some(limit), offset: Some(offset), ..self }),
    {
        SnippetQuery { limit: Some(limit), offset: Some(offset), ..self }
    }

    pub fn with_active_only(self) -> (r: Self)
        ensures
            r == (SnippetQuery { is_active: Some(true), ..self }),
    {
        SnippetQuery { is_active: Some(true), ..self }
    }

    /// Leaves the query as it is: snippets are listed whatever their state
    /// unless a state was asked for.
    pub fn with_all(self) -> (r: Self)
        ensures
            r == self,
    {
        self
    }

    pub fn with_limit(self, limit: u32) -> (r: Self)
        ensures
            r == (SnippetQuery { limit: Some(limit), ..self }),
    {
        SnippetQuery { limit: Some(limit), ..self }
    }

    pub fn with_offset(self, offset: u32) -> (r: Self)
        ensures
            r == (SnippetQuery { offset: Some(offset), ..self }),
    {
        SnippetQuery { offset: Some(offset), ..self }
    }

    pub fn sort_by_usage(self) -> (r: Self)
        ensures
            r == (SnippetQuery { sort_by: Some(SortBy::UsageCount), ..self }),
    {
        SnippetQuery { sort_by: Some(SortBy::UsageCount), ..self }
    }

    pub fn sort_by_created(self) -> (r: Self)
        ensures
            r == (SnippetQuery { sort_by: Some(SortBy::CreatedAt), ..self }),
    {
        SnippetQuery { sort_by: Some(SortBy::CreatedAt), ..self }
    }

    pub fn sort_alphabetically(self) -> (r: Self)
        ensures
            r == (SnippetQuery { sort_by: Some(SortBy::Trigger), ..self }),
    {
        SnippetQuery { sort_by: Some(SortBy::Trigger), ..self }
    }
}

} // verus!
