//! The detail view: it remembers the record last highlighted in the stream
//! view, for rendering its timestamp, deep link and payload.

use vstd::prelude::*;
use crate::action::{Action, ComponentPayload};
use crate::outer_layout::Message;

verus! {

/// The detail view component.
#[derive(Debug)]
pub struct LogDetail {
    /// The record last highlighted, if any was yet.
    pub message: Option<Message>,
}

impl LogDetail {
    /// A detail view with nothing highlighted yet.
    pub fn new() -> (r: Self)
        ensures
            r.message is None,
    {
        Self { message: None }
    }

    /// Handle a highlight announcement: a `SelectLog` payload replaces the
    /// remembered record; every other action changes nothing.
    pub fn update(&mut self, action: &Action)
        ensures
            action matches Action::ComponentAction(ComponentPayload::SelectLog(p))
                ==> (final(self).message matches Some(m) && m@ == p.selected_log@),
            !(action matches Action::ComponentAction(ComponentPayload::SelectLog(_)))
                ==> *final(self) == *old(self),
    {
        match action {
            Action::ComponentAction(ComponentPayload::SelectLog(p)) => {
                self.message = Some(p.selected_log.clone());
            },
            _ => {},
        }
    }
}

impl Default for LogDetail {
    fn default() -> (r: Self)
        ensures
            r.message is None,
    {
        Self { message: None }
    }
}

} // verus!
