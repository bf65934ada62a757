//! The live-tail session lifecycle.
//!
//! A session owns one cancellable streaming subscription, identified by an
//! epoch that grows by one with every session ever started. The surrounding
//! program opens and cancels the actual transport subscription on request
//! (the [`Effect`]s returned here) and tags every inbound batch with the
//! epoch of the session it came from; the engine accepts a batch only if that
//! epoch is the current one, so a superseded session can never slip records
//! into the buffer.

use vstd::prelude::*;
use crate::action::{Action, ComponentPayload, Effect};
use crate::outer_layout::{NewRecord, NewRecordView, ReceiveNewLog};
use crate::url::{generate_url, spec_console_url, UrlConfig};

verus! {

/// The lifecycle states of the live-tail session:
/// `Idle -> Starting -> Streaming -> {Cancelled, Failed} -> Idle`.
#[derive(Clone, Copy, Debug, PartialEq, Eq, Structural)]
pub enum SessionState {
    /// No active subscription.
    Idle,
    /// A subscription is being opened for a non-empty set of group
    /// identifiers.
    Starting,
    /// The subscription is alive, awaiting batches or cancellation.
    Streaming,
    /// Cancellation was signalled; the subscription task exits at its next
    /// wait point.
    Cancelled,
    /// The transport ended the stream or errored; a new session must be
    /// started explicitly.
    Failed,
}

/// The engine's record of the one live-tail session. At most one session is
/// ever in `Starting` or `Streaming`: starting a new session first signals
/// cancellation on any existing one.
#[derive(Clone, Debug)]
pub struct LiveTailSession {
    /// Lifecycle state of the current session.
    pub state: SessionState,
    /// Identity of the current session; grows by one with every session ever
    /// started, so a superseded session's epoch is strictly smaller.
    pub epoch: u64,
    /// The group identifiers the current session was opened for.
    pub group_arns: Vec<String>,
}

impl LiveTailSession {
    /// The session is in a state in which a subscription exists or is being
    /// opened.
    pub open spec fn spec_active(&self) -> bool {
        self.state is Starting || self.state is Streaming
    }

    /// A batch tagged with `epoch` belongs to the current session and is to
    /// be appended.
    pub open spec fn spec_accepts(&self, epoch: u64) -> bool {
        epoch == self.epoch && self.spec_active()
    }

    /// No subscription exists and no epoch was ever used.
    pub fn new() -> (r: Self)
        ensures
            r.state is Idle,
            r.epoch == 0,
            r.group_arns@.len() == 0,
    {
        LiveTailSession { state: SessionState::Idle, epoch: 0, group_arns: Vec::new() }
    }

    /// Whether a subscription exists or is being opened.
    pub fn is_active(&self) -> (r: bool)
        ensures
            r == self.spec_active(),
    {
        match self.state {
            SessionState::Starting => true,
            SessionState::Streaming => true,
            _ => false,
        }
    }

    /// Whether a batch tagged with `epoch` is from the current session.
    pub fn accepts(&self, epoch: u64) -> (r: bool)
        ensures
            r == self.spec_accepts(epoch),
    {
        epoch == self.epoch && self.is_active()
    }

    /// Signal cancellation on the current session, if one is active.
    ///
    /// The cancellation is cooperative and best-effort: the returned effect
    /// asks the surroundings to raise the signal, and nothing waits for the
    /// task to exit.
    pub fn stop_live_tail(&mut self) -> (eff: Option<Effect>)
        ensures
            final(self).epoch == old(self).epoch,
            final(self).group_arns == old(self).group_arns,
            old(self).spec_active() ==> (final(self).state is Cancelled && (eff matches Some(e)
                && (e matches Effect::CancelStream { epoch } && epoch == old(self).epoch))),
            !old(self).spec_active() ==> (final(self).state == old(self).state && eff is None),
    {
        if self.is_active() {
            self.state = SessionState::Cancelled;
            Some(Effect::CancelStream { epoch: self.epoch })
        } else {
            None
        }
    }

    /// What replacing the session does, for a replacement with `n_arns`
    /// group identifiers; the contract of
    /// [`LiveTailSession::start_live_tail`], short of which identifiers the
    /// new session holds.
    pub open spec fn spec_post_start(
        pre: LiveTailSession,
        post: LiveTailSession,
        n_arns: nat,
        effs: Seq<Effect>,
    ) -> bool {
        &&& (n_arns == 0 ==> {
            &&& post.state is Idle
            &&& post.epoch == pre.epoch
            &&& post.group_arns@.len() == 0
        })
        &&& (n_arns > 0 ==> {
            &&& post.state is Starting
            &&& post.epoch == pre.epoch + 1
        })
        &&& post.epoch >= pre.epoch
        &&& effs.len() == (if pre.spec_active() {
            1int
        } else {
            0int
        }) + (if n_arns > 0 {
            1int
        } else {
            0int
        })
        &&& (pre.spec_active() ==> effs[0] == (Effect::CancelStream { epoch: pre.epoch }))
        &&& (n_arns > 0 ==> effs.last() == (Effect::StartStream { epoch: post.epoch }))
    }

    /// Replace the current session: signal cancellation on any active one,
    /// then, if the set of group identifiers is non-empty, start a new
    /// session for it under a fresh epoch; an empty set leaves the session
    /// idle.
    ///
    /// The effects come in order: the cancellation of the superseded session
    /// always precedes the start of its replacement.
    pub fn start_live_tail(&mut self, group_arns: Vec<String>) -> (effs: Vec<Effect>)
        requires
            old(self).epoch < u64::MAX,
        ensures
            LiveTailSession::spec_post_start(*old(self), *final(self), group_arns@.len(), effs@),
            group_arns@.len() > 0 ==> final(self).group_arns == group_arns,
    {
        let mut effs: Vec<Effect> = Vec::new();
        if let Some(cancel) = self.stop_live_tail() {
            effs.push(cancel);
        }
        if group_arns.is_empty() {
            self.state = SessionState::Idle;
            self.group_arns = Vec::new();
        } else {
            self.epoch = self.epoch + 1;
            self.state = SessionState::Starting;
            self.group_arns = group_arns;
            effs.push(Effect::StartStream { epoch: self.epoch });
        }
        effs
    }

    /// Note that the subscription opened: the starting session is streaming.
    /// A notice from a superseded session changes nothing.
    pub fn on_stream_opened(&mut self, epoch: u64)
        ensures
            final(self).epoch == old(self).epoch,
            final(self).group_arns == old(self).group_arns,
            (epoch == old(self).epoch && old(self).state is Starting) ==> final(self).state
                is Streaming,
            !(epoch == old(self).epoch && old(self).state is Starting) ==> final(self).state == old(
                self,
            ).state,
    {
        if epoch == self.epoch {
            if let SessionState::Starting = self.state {
                self.state = SessionState::Streaming;
            }
        }
    }

    /// Note that the transport ended the stream or errored. The state becomes
    /// `Failed`, which is terminal: no automatic retry, a new session must be
    /// started explicitly. A notice from a superseded session changes
    /// nothing.
    pub fn on_stream_closed(&mut self, epoch: u64)
        ensures
            final(self).epoch == old(self).epoch,
            final(self).group_arns == old(self).group_arns,
            (epoch == old(self).epoch && old(self).spec_active()) ==> final(self).state is Failed,
            !(epoch == old(self).epoch && old(self).spec_active()) ==> final(self).state == old(
                self,
            ).state,
    {
        if epoch == self.epoch && self.is_active() {
            self.state = SessionState::Failed;
        }
    }
}

/// One record of a batch as the transport's session update delivers it.
#[derive(Debug, PartialEq)]
pub struct LiveTailEvent {
    /// Raw text payload.
    pub message: String,
    /// Event timestamp, in milliseconds since the epoch.
    pub timestamp: i64,
    /// Identifier of the group the record belongs to.
    pub log_group_identifier: String,
    /// Name of the stream the record came from.
    pub log_stream_name: String,
}

/// The mathematical content of a [`LiveTailEvent`].
pub ghost struct LiveTailEventView {
    pub message: Seq<char>,
    pub timestamp: i64,
    pub log_group_identifier: Seq<char>,
    pub log_stream_name: Seq<char>,
}

impl View for LiveTailEvent {
    type V = LiveTailEventView;

    open spec fn view(&self) -> LiveTailEventView {
        LiveTailEventView {
            message: self.message@,
            timestamp: self.timestamp,
            log_group_identifier: self.log_group_identifier@,
            log_stream_name: self.log_stream_name@,
        }
    }
}

impl DeepView for LiveTailEvent {
    type V = LiveTailEventView;

    open spec fn deep_view(&self) -> LiveTailEventView {
        self.view()
    }
}

/// The records a batch of transport events translates to: payload and
/// timestamp carried over, and a console deep link derived from the group
/// identifier and stream name.
pub open spec fn spec_translated(
    events: Seq<LiveTailEventView>,
    region: Seq<char>,
    account_id: Seq<char>,
) -> Seq<NewRecordView> {
    Seq::new(
        events.len(),
        |i: int|
            NewRecordView {
                content: events[i].message,
                datetime: events[i].timestamp,
                url: spec_console_url(
                    region,
                    account_id,
                    events[i].log_group_identifier,
                    events[i].log_stream_name,
                ),
            },
    )
}

/// Translate one inbound batch into the action that announces it, tagged
/// with the epoch of the session the batch came from. An empty batch (a
/// pure heartbeat) is discarded without an action.
#[verifier::loop_isolation(false)]
pub fn translate_batch(epoch: u64, events: &Vec<LiveTailEvent>, cfg: &UrlConfig) -> (r: Option<
    Action,
>)
    ensures
        events@.len() == 0 ==> r is None,
        events@.len() > 0 ==> (r matches Some(a) && (a matches Action::ComponentAction(p) && (
        p matches ComponentPayload::ReceiveNewLog(rn) && rn.session_epoch == epoch
            && rn.new_messages.deep_view() == spec_translated(
            events.deep_view(),
            cfg.region@,
            cfg.account_id@,
        )))),
{
    if events.len() == 0 {
        return None;
    }
    let ghost eventsv = events.deep_view();
    let ghost target = spec_translated(eventsv, cfg.region@, cfg.account_id@);
    let mut msgs: Vec<NewRecord> = Vec::new();
    let mut i: usize = 0;
    while i < events.len()
        invariant
            i <= eventsv.len(),
            msgs.deep_view() == target.take(i as int),
        decreases eventsv.len() - i,
    {
        let ev = &events[i];
        let url = generate_url(cfg, ev.log_group_identifier.as_str(), ev.log_stream_name.as_str());
        let rec = NewRecord { content: ev.message.clone(), datetime: ev.timestamp, url };
        msgs.push(rec);
        i = i + 1;
        proof {
            assert(eventsv[i - 1] == events@[i - 1]@);
            assert(msgs.deep_view() =~= target.take(i as int));
        }
    }
    proof {
        assert(target.take(eventsv.len() as int) =~= target);
    }
    Some(
        Action::ComponentAction(
            ComponentPayload::ReceiveNewLog(ReceiveNewLog { session_epoch: epoch, new_messages: msgs }),
        ),
    )
}

/// Law: a session that was superseded stays superseded. Epochs only grow, so
/// once the session was replaced, a batch tagged with the superseded
/// session's epoch — in particular one still in flight when cancellation was
/// signalled — is never accepted again, and no record of the old session's
/// groups reaches the buffer after the replacement.
pub proof fn lemma_superseded_batch_rejected(s: &LiveTailSession, old_epoch: u64)
    requires
        old_epoch < s.epoch,
    ensures
        !s.spec_accepts(old_epoch),
{
}

} // verus!
