//! Where an expansion happens, and the service that finds `::` triggers.

use vstd::prelude::*;
use crate::triggers::{TriggerDetectionService, TriggerMatch, is_trigger_list};

verus! {

/// What is known about the place an expansion happens.
#[derive(Debug, Clone)]
pub struct ExpansionContext {
    pub cursor_position: Option<usize>,
    pub surrounding_text: Option<String>,
    pub application_context: Option<String>,
}

impl Default for ExpansionContext {
    fn default() -> (r: Self)
        ensures
            r.cursor_position is None,
            r.surrounding_text is None,
            r.application_context is None,
    {
        ExpansionContext::new()
    }
}

impl ExpansionContext {
    /// A context that knows nothing.
    pub fn new() -> (r: Self)
        ensures
            r.cursor_position is None,
            r.surrounding_text is None,
            r.application_context is None,
    {
        ExpansionContext { cursor_position: None, surrounding_text: None, application_context: None }
    }

    pub fn with_cursor_position(self, position: usize) -> (r: Self)
        ensures
            r == (ExpansionContext { cursor_position: Some(position), ..self }),
    {
        ExpansionContext { cursor_position: Some(position), ..self }
    }

    pub fn with_surrounding_text(self, text: String) -> (r: Self)
        ensures
            r == (ExpansionContext { surrounding_text: Some(text), ..self }),
    {
        ExpansionContext { surrounding_text: Some(text), ..self }
    }

    pub fn with_application_context(self, context: String) -> (r: Self)
        ensures
            r == (ExpansionContext { application_context: Some(context), ..self }),
    {
        ExpansionContext { application_context: Some(context), ..self }
    }
}

/// Finds triggers of the `::` pattern.
#[derive(Debug, Clone, Copy)]
pub struct ExpansionService;

impl ExpansionService {
    pub fn new() -> (r: Self) {
        ExpansionService
    }

    /// Every `::` trigger in `text`, ordered by position.
    pub fn find_triggers(&self, text: &str) -> (r: Vec<TriggerMatch>)
        ensures
            is_trigger_list(text@, set![0usize], r@),
    {
        TriggerDetectionService::new().find_triggers_in_text(text)
    }
}

} // verus!
