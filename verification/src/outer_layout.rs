//! The outermost component: it composes the group list, the stream view and
//! the live-tail session, routes key input and actions, and owns the focus.

use vstd::prelude::*;
use crate::action::{Action, ComponentPayload, Effect, KeyInput};
use crate::log_group_list::{LogGroup, LogGroupList, LogGroupView};
use crate::log_stream::LogStream;
use crate::session::LiveTailSession;

verus! {

/// One delivered log record. Immutable once built; equality of two records is
/// value-based except `id`, which distinguishes otherwise-identical payloads.
/// The `id` is assigned monotonically by the stream view when the record
/// enters the buffer; it is not derived from the record's content.
#[derive(Debug, PartialEq, Eq, Hash)]
pub struct Message {
    /// Unique, monotonically-assigned identifier.
    pub id: u64,
    /// Raw text payload.
    pub content: String,
    /// Arrival timestamp, in milliseconds since the epoch.
    pub datetime: i64,
    /// Precomputed deep link back to the record's source.
    pub url: String,
}

/// The mathematical content of a [`Message`]: its strings as character
/// sequences.
pub ghost struct MessageView {
    pub id: u64,
    pub content: Seq<char>,
    pub datetime: i64,
    pub url: Seq<char>,
}

impl View for Message {
    type V = MessageView;

    open spec fn view(&self) -> MessageView {
        MessageView {
            id: self.id,
            content: self.content@,
            datetime: self.datetime,
            url: self.url@,
        }
    }
}

impl DeepView for Message {
    type V = MessageView;

    open spec fn deep_view(&self) -> MessageView {
        self.view()
    }
}

impl Clone for Message {
    fn clone(&self) -> (r: Self)
        ensures
            r@ == self@,
    {
        Message {
            id: self.id,
            content: self.content.clone(),
            datetime: self.datetime,
            url: self.url.clone(),
        }
    }
}

/// A record as delivered by the live-tail transport, before the buffer has
/// assigned it an id.
#[derive(Debug, PartialEq)]
pub struct NewRecord {
    /// Raw text payload.
    pub content: String,
    /// Arrival timestamp, in milliseconds since the epoch.
    pub datetime: i64,
    /// Precomputed deep link back to the record's source.
    pub url: String,
}

/// The mathematical content of a [`NewRecord`].
pub ghost struct NewRecordView {
    pub content: Seq<char>,
    pub datetime: i64,
    pub url: Seq<char>,
}

impl View for NewRecord {
    type V = NewRecordView;

    open spec fn view(&self) -> NewRecordView {
        NewRecordView { content: self.content@, datetime: self.datetime, url: self.url@ }
    }
}

impl DeepView for NewRecord {
    type V = NewRecordView;

    open spec fn deep_view(&self) -> NewRecordView {
        self.view()
    }
}

impl Clone for NewRecord {
    fn clone(&self) -> (r: Self)
        ensures
            r@ == self@,
    {
        NewRecord {
            content: self.content.clone(),
            datetime: self.datetime,
            url: self.url.clone(),
        }
    }
}

/// Payload announcing a batch of newly arrived records, tagged with the epoch
/// of the session that produced it so that a batch from a superseded session
/// can be recognized and dropped.
#[derive(Clone, Debug, PartialEq, Default)]
pub struct ReceiveNewLog {
    /// The epoch of the session that emitted this batch.
    pub session_epoch: u64,
    /// The records of the batch, in arrival order.
    pub new_messages: Vec<NewRecord>,
}

/// Which of the two panes holds the focus.
#[derive(Clone, Debug, PartialEq)]
pub enum Cursor {
    LogGroupList,
    LogStream,
}

impl Default for Cursor {
    /// The group list holds the focus at startup.
    fn default() -> (r: Self)
        ensures
            r is LogGroupList,
    {
        Self::LogGroupList
    }
}

/// The subscription identifiers of a list of groups, in order.
pub open spec fn spec_arns_of(groups: Seq<LogGroupView>) -> Seq<Seq<char>> {
    Seq::new(groups.len(), |i: int| groups[i].arn)
}

/// Copy the subscription identifiers out of a list of groups.
#[verifier::loop_isolation(false)]
fn arns_of(groups: &Vec<LogGroup>) -> (r: Vec<String>)
    ensures
        r.deep_view() == spec_arns_of(groups.deep_view()),
{
    let ghost groupsv = groups.deep_view();
    let mut out: Vec<String> = Vec::new();
    let mut i: usize = 0;
    while i < groups.len()
        invariant
            i <= groupsv.len(),
            out.deep_view() == spec_arns_of(groupsv).take(i as int),
        decreases groupsv.len() - i,
    {
        let arn = groups[i].arn.clone();
        out.push(arn);
        i = i + 1;
        proof {
            assert(out.deep_view() =~= spec_arns_of(groupsv).take(i as int));
        }
    }
    proof {
        assert(spec_arns_of(groupsv).take(groupsv.len() as int) =~= spec_arns_of(groupsv));
    }
    out
}

/// The outermost component: both panes, the live-tail session, and the
/// focus.
#[derive(Debug)]
pub struct OuterLayout {
    /// Which pane holds the focus.
    pub cursor: Cursor,
    /// The group list and selection store.
    pub log_group_list: LogGroupList,
    /// The stream view with the rolling record buffer.
    pub log_stream: LogStream,
    /// The live-tail session this component owns and replaces.
    pub session: LiveTailSession,
}

impl OuterLayout {
    /// Structural invariant: both panes are well-formed.
    pub open spec fn wf(&self) -> bool {
        &&& self.log_group_list.wf()
        &&& self.log_stream.wf()
    }

    /// What the update cycle requires of an action before dispatching it:
    /// room for one more session epoch when a selection change arrives, and
    /// room for the batch's ids when an accepted batch arrives. Machine
    /// limits only; the surrounding loop checks them before calling in.
    pub open spec fn spec_update_fits(pre: &OuterLayout, action: &Action) -> bool {
        &&& (action matches Action::ComponentAction(ComponentPayload::SelectLogGroup(_))
            ==> pre.session.epoch < u64::MAX)
        &&& (action matches Action::ComponentAction(ComponentPayload::ReceiveNewLog(rn)) ==> (
        pre.session.spec_accepts(rn.session_epoch) ==> pre.log_stream.next_id
            + rn.new_messages@.len() <= u64::MAX))
    }

    /// A fresh tree: group list focused, both panes empty, no session ever
    /// started.
    pub fn new() -> (r: Self)
        ensures
            r.wf(),
            r.cursor is LogGroupList,
            r.log_group_list.loaded_log_groups@.len() == 0,
            r.log_group_list.selected_log_groups@.len() == 0,
            r.log_group_list.persisted is None,
            r.log_stream.received_logs@.len() == 0,
            r.log_stream.saved_logs@.len() == 0,
            r.session.state is Idle,
            r.session.epoch == 0,
    {
        OuterLayout {
            cursor: Cursor::LogGroupList,
            log_group_list: LogGroupList::default(),
            log_stream: LogStream::default(),
            session: LiveTailSession::new(),
        }
    }

    /// Replace the live-tail session for these group identifiers: any active
    /// session is cancelled first, and a non-empty set starts a new session
    /// under a fresh epoch.
    pub fn start_live_tail(&mut self, log_group_arn_list: Vec<String>) -> (effs: Vec<Effect>)
        requires
            old(self).session.epoch < u64::MAX,
        ensures
            final(self).cursor == old(self).cursor,
            final(self).log_group_list == old(self).log_group_list,
            final(self).log_stream == old(self).log_stream,
            LiveTailSession::spec_post_start(
                old(self).session,
                final(self).session,
                log_group_arn_list@.len(),
                effs@,
            ),
            log_group_arn_list@.len() > 0 ==> final(self).session.group_arns
                == log_group_arn_list,
    {
        self.session.start_live_tail(log_group_arn_list)
    }

    /// Signal cancellation on the active session, if any.
    pub fn stop_live_tail(&mut self) -> (eff: Option<Effect>)
        ensures
            final(self).cursor == old(self).cursor,
            final(self).log_group_list == old(self).log_group_list,
            final(self).log_stream == old(self).log_stream,
            final(self).session.epoch == old(self).session.epoch,
            old(self).session.spec_active() ==> (final(self).session.state is Cancelled && (
            eff matches Some(e) && (e matches Effect::CancelStream { epoch } && epoch == old(
                self,
            ).session.epoch))),
            !old(self).session.spec_active() ==> (final(self).session.state == old(
                self,
            ).session.state && eff is None),
    {
        self.session.stop_live_tail()
    }

    /// One update cycle: dispatch one action to the component that consumes
    /// it.
    ///
    /// A fresh fetch goes to the group list, which may announce a restored
    /// selection. A selection change replaces the live-tail session for the
    /// selected groups' identifiers. A batch of new records is appended to
    /// the stream view only if it carries the current session's epoch: a
    /// batch from a superseded session — even one that was in flight when
    /// the replacement was made — is dropped without a trace, so no record
    /// of the old session's groups is ever appended after the replacement.
    pub fn update(&mut self, action: Action) -> (r: (Vec<Action>, Vec<Effect>))
        requires
            old(self).wf(),
            OuterLayout::spec_update_fits(old(self), &action),
        ensures
            final(self).wf(),
            final(self).cursor == old(self).cursor,
            action matches Action::ComponentAction(ComponentPayload::FetchLogGroups(_)) ==> {
                &&& final(self).log_stream == old(self).log_stream
                &&& final(self).session == old(self).session
                &&& LogGroupList::spec_post_update(
                    old(self).log_group_list,
                    final(self).log_group_list,
                    &action,
                    r.0@,
                )
                &&& r.1@.len() == 0
            },
            action matches Action::ComponentAction(ComponentPayload::ReceiveNewLog(rn)) ==> {
                &&& final(self).log_group_list == old(self).log_group_list
                &&& final(self).session == old(self).session
                &&& r.0@.len() == 0 && r.1@.len() == 0
                &&& (old(self).session.spec_accepts(rn.session_epoch)
                    ==> LogStream::spec_post_append(
                    old(self).log_stream,
                    final(self).log_stream,
                    rn.new_messages.deep_view(),
                ))
                &&& (!old(self).session.spec_accepts(rn.session_epoch) ==> final(self).log_stream
                    == old(self).log_stream)
            },
            action matches Action::ComponentAction(ComponentPayload::SelectLogGroup(sel)) ==> {
                &&& final(self).log_group_list == old(self).log_group_list
                &&& final(self).log_stream == old(self).log_stream
                &&& r.0@.len() == 0
                &&& LiveTailSession::spec_post_start(
                    old(self).session,
                    final(self).session,
                    sel.log_groups@.len(),
                    r.1@,
                )
                &&& (sel.log_groups@.len() > 0 ==> final(self).session.group_arns.deep_view()
                    == spec_arns_of(sel.log_groups.deep_view()))
            },
            spec_is_lifecycle_or_select_log(&action) ==> (*final(self) == *old(self) && r.0@.len()
                == 0 && r.1@.len() == 0),
    {
        let acts: Vec<Action>;
        let mut effs: Vec<Effect> = Vec::new();
        match &action {
            Action::ComponentAction(ComponentPayload::FetchLogGroups(_)) => {
                acts = self.log_group_list.update(action);
            },
            Action::ComponentAction(ComponentPayload::ReceiveNewLog(rn)) => {
                if self.session.accepts(rn.session_epoch) {
                    self.log_stream.update(&action);
                }
                acts = Vec::new();
            },
            Action::ComponentAction(ComponentPayload::SelectLogGroup(sel)) => {
                let arn_list = arns_of(&sel.log_groups);
                proof {
                    assert(arn_list.deep_view() == spec_arns_of(sel.log_groups.deep_view()));
                    assert(arn_list.deep_view().len() == arn_list@.len());
                    assert(spec_arns_of(sel.log_groups.deep_view()).len()
                        == sel.log_groups.deep_view().len());
                    assert(sel.log_groups.deep_view().len() == sel.log_groups@.len());
                    assert(arn_list@.len() == sel.log_groups@.len());
                }
                effs = self.session.start_live_tail(arn_list);
                acts = Vec::new();
            },
            _ => {
                acts = Vec::new();
            },
        }
        (acts, effs)
    }

    /// Route a logical key: the focus switch flips which pane is focused;
    /// every other key goes to the focused pane, whose own contract says
    /// what it does with it.
    pub fn handle_key_event(&mut self, key: KeyInput) -> (r: (Vec<Action>, Vec<Effect>))
        requires
            old(self).wf(),
        ensures
            final(self).wf(),
            final(self).session == old(self).session,
            key is SwitchFocus ==> {
                &&& final(self).log_group_list == old(self).log_group_list
                &&& final(self).log_stream == old(self).log_stream
                &&& (old(self).cursor is LogGroupList <==> final(self).cursor is LogStream)
                &&& r.0@.len() == 0 && r.1@.len() == 0
            },
            !(key is SwitchFocus) && old(self).cursor is LogGroupList ==> {
                &&& final(self).cursor == old(self).cursor
                &&& final(self).log_stream == old(self).log_stream
                &&& LogGroupList::spec_post_handle_key(
                    old(self).log_group_list,
                    final(self).log_group_list,
                    key,
                    r.0@,
                    r.1@,
                )
            },
            !(key is SwitchFocus) && old(self).cursor is LogStream ==> {
                &&& final(self).cursor == old(self).cursor
                &&& final(self).log_group_list == old(self).log_group_list
                &&& LogStream::spec_post_handle_key(
                    old(self).log_stream,
                    final(self).log_stream,
                    key,
                    r.0@,
                    r.1@,
                )
            },
    {
        match key {
            KeyInput::SwitchFocus => {
                self.cursor = match self.cursor {
                    Cursor::LogGroupList => Cursor::LogStream,
                    Cursor::LogStream => Cursor::LogGroupList,
                };
                (Vec::new(), Vec::new())
            },
            _ => {
                match self.cursor {
                    Cursor::LogGroupList => self.log_group_list.handle_key_event(key),
                    Cursor::LogStream => self.log_stream.handle_key_event(key),
                }
            },
        }
    }
}

impl Default for OuterLayout {
    fn default() -> (r: Self)
        ensures
            r.wf(),
            r.cursor is LogGroupList,
            r.session.state is Idle,
            r.session.epoch == 0,
    {
        Self::new()
    }
}

/// An action that neither pane nor the session consumes: the lifecycle
/// actions, and a highlight announcement (consumed by the detail view, which
/// sits outside this tree).
pub open spec fn spec_is_lifecycle_or_select_log(action: &Action) -> bool {
    !(action matches Action::ComponentAction(ComponentPayload::FetchLogGroups(_)))
        && !(action matches Action::ComponentAction(ComponentPayload::ReceiveNewLog(_)))
        && !(action matches Action::ComponentAction(ComponentPayload::SelectLogGroup(_)))
}

} // verus!
