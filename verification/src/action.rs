//! Actions: the tagged values that flow through the single ordered channel of
//! the event loop, together with the logical key inputs that produce them and
//! the effects the loop asks its surroundings to perform.

use vstd::prelude::*;
use crate::log_group_list::{FetchLogGroups, SelectLogGroup};
use crate::log_stream::{ExportLogs, SelectLog};
use crate::outer_layout::ReceiveNewLog;

verus! {

/// A component-originated payload. Each variant identifies itself by a tag
/// (its [`name`](ComponentPayload::name)); recipients test the tag and ignore
/// what they do not recognize.
#[derive(Clone, Debug)]
pub enum ComponentPayload {
    FetchLogGroups(FetchLogGroups),
    SelectLogGroup(SelectLogGroup),
    ReceiveNewLog(ReceiveNewLog),
    SelectLog(SelectLog),
    ExportLogs(ExportLogs),
}

impl ComponentPayload {
    /// The tag of this payload.
    pub open spec fn spec_name(&self) -> Seq<char> {
        match self {
            ComponentPayload::FetchLogGroups(_) => "FetchLogGroups"@,
            ComponentPayload::SelectLogGroup(_) => "SelectLogGroup"@,
            ComponentPayload::ReceiveNewLog(_) => "ReceiveNewLog"@,
            ComponentPayload::SelectLog(_) => "SelectLog"@,
            ComponentPayload::ExportLogs(_) => "ExportLogs"@,
        }
    }

    /// The tag of this payload, by which recipients recognize it.
    pub fn name(&self) -> (r: &'static str)
        ensures
            r@ == self.spec_name(),
    {
        match self {
            ComponentPayload::FetchLogGroups(_) => "FetchLogGroups",
            ComponentPayload::SelectLogGroup(_) => "SelectLogGroup",
            ComponentPayload::ReceiveNewLog(_) => "ReceiveNewLog",
            ComponentPayload::SelectLog(_) => "SelectLog",
            ComponentPayload::ExportLogs(_) => "ExportLogs",
        }
    }
}

/// A tagged value flowing through the action channel: a closed set of
/// lifecycle actions, and component-originated payloads.
#[derive(Clone, Debug)]
pub enum Action {
    Tick,
    Render,
    Resize(u16, u16),
    Suspend,
    Resume,
    Quit,
    ClearScreen,
    Error(String),
    Help,
    ComponentAction(ComponentPayload),
}

/// What equality of two actions means: lifecycle actions are equal when their
/// variants and data agree; two component payloads are compared by tag alone.
pub open spec fn spec_action_eq(a: &Action, b: &Action) -> bool {
    match (a, b) {
        (Action::Tick, Action::Tick) => true,
        (Action::Render, Action::Render) => true,
        (Action::Resize(w1, h1), Action::Resize(w2, h2)) => w1 == w2 && h1 == h2,
        (Action::Suspend, Action::Suspend) => true,
        (Action::Resume, Action::Resume) => true,
        (Action::Quit, Action::Quit) => true,
        (Action::ClearScreen, Action::ClearScreen) => true,
        (Action::Error(m1), Action::Error(m2)) => m1@ == m2@,
        (Action::Help, Action::Help) => true,
        (Action::ComponentAction(p1), Action::ComponentAction(p2)) => p1.spec_name()
            == p2.spec_name(),
        _ => false,
    }
}

impl PartialEq for Action {
    fn eq(&self, other: &Self) -> (r: bool) {
        match (self, other) {
            (Action::Tick, Action::Tick) => true,
            (Action::Render, Action::Render) => true,
            (Action::Resize(w1, h1), Action::Resize(w2, h2)) => *w1 == *w2 && *h1 == *h2,
            (Action::Suspend, Action::Suspend) => true,
            (Action::Resume, Action::Resume) => true,
            (Action::Quit, Action::Quit) => true,
            (Action::ClearScreen, Action::ClearScreen) => true,
            (Action::Error(m1), Action::Error(m2)) => *m1 == *m2,
            (Action::Help, Action::Help) => true,
            (Action::ComponentAction(p1), Action::ComponentAction(p2)) => {
                let n1 = p1.name();
                let n2 = p2.name();
                n1.to_owned() == n2.to_owned()
            },
            _ => false,
        }
    }
}

impl vstd::std_specs::cmp::PartialEqSpecImpl for Action {
    open spec fn obeys_eq_spec() -> bool {
        true
    }

    open spec fn eq_spec(&self, other: &Action) -> bool {
        spec_action_eq(self, other)
    }
}

/// The name of a lifecycle action, if the given string is one.
///
/// Returns `Some` exactly for the nine lifecycle names; a `Resize` parsed from
/// a name alone carries zero dimensions, and an `Error` an empty message.
pub fn action_from_name(name: &str) -> (r: Option<Action>)
    ensures
        name@ == "Tick"@ ==> (r matches Some(a) && a is Tick),
        name@ == "Render"@ ==> (r matches Some(a) && a is Render),
        name@ == "Resize"@ ==> (r matches Some(a) && (a matches Action::Resize(w, h) && w == 0 && h
            == 0)),
        name@ == "Suspend"@ ==> (r matches Some(a) && a is Suspend),
        name@ == "Resume"@ ==> (r matches Some(a) && a is Resume),
        name@ == "Quit"@ ==> (r matches Some(a) && a is Quit),
        name@ == "ClearScreen"@ ==> (r matches Some(a) && a is ClearScreen),
        name@ == "Error"@ ==> (r matches Some(a) && (a matches Action::Error(m) && m@
            == Seq::<char>::empty())),
        name@ == "Help"@ ==> (r matches Some(a) && a is Help),
        r is None <==> (name@ != "Tick"@ && name@ != "Render"@ && name@ != "Resize"@ && name@
            != "Suspend"@ && name@ != "Resume"@ && name@ != "Quit"@ && name@ != "ClearScreen"@
            && name@ != "Error"@ && name@ != "Help"@),
{
    proof {
        reveal_strlit("Tick");
        reveal_strlit("Render");
        reveal_strlit("Resize");
        reveal_strlit("Suspend");
        reveal_strlit("Resume");
        reveal_strlit("Quit");
        reveal_strlit("ClearScreen");
        reveal_strlit("Error");
        reveal_strlit("Help");
        // Ground facts that let the solver tell the nine names apart.
        assert("Tick"@.len() == 4 && "Tick"@[0] == 'T');
        assert("Render"@.len() == 6 && "Render"@[0] == 'R' && "Render"@[2] == 'n');
        assert("Resize"@.len() == 6 && "Resize"@[0] == 'R' && "Resize"@[2] == 's' && "Resize"@[3]
            == 'i');
        assert("Suspend"@.len() == 7 && "Suspend"@[0] == 'S');
        assert("Resume"@.len() == 6 && "Resume"@[0] == 'R' && "Resume"@[2] == 's' && "Resume"@[3]
            == 'u');
        assert("Quit"@.len() == 4 && "Quit"@[0] == 'Q');
        assert("ClearScreen"@.len() == 11 && "ClearScreen"@[0] == 'C');
        assert("Error"@.len() == 5 && "Error"@[0] == 'E');
        assert("Help"@.len() == 4 && "Help"@[0] == 'H');
    }
    let owned = name.to_owned();
    if owned == String::from_str("Tick") {
        Some(Action::Tick)
    } else if owned == String::from_str("Render") {
        Some(Action::Render)
    } else if owned == String::from_str("Resize") {
        Some(Action::Resize(0, 0))
    } else if owned == String::from_str("Suspend") {
        Some(Action::Suspend)
    } else if owned == String::from_str("Resume") {
        Some(Action::Resume)
    } else if owned == String::from_str("Quit") {
        Some(Action::Quit)
    } else if owned == String::from_str("ClearScreen") {
        Some(Action::ClearScreen)
    } else if owned == String::from_str("Error") {
        Some(Action::Error(String::new()))
    } else if owned == String::from_str("Help") {
        Some(Action::Help)
    } else {
        None
    }
}

/// A logical key binding, independent of literal key codes.
#[derive(Clone, Copy, Debug, PartialEq, Eq, Structural)]
pub enum KeyInput {
    /// Move the highlight up within the focused list.
    Up,
    /// Move the highlight down within the focused list.
    Down,
    /// Toggle star or selection on the highlighted row.
    Toggle,
    /// Switch focus between the group list and the stream view.
    SwitchFocus,
    /// Copy the highlighted record's deep link.
    CopyUrl,
    /// Export the starred records.
    Export,
    /// Any other key; ignored.
    Other,
}

/// The single ordered channel of the event loop. Every action — key input,
/// timer ticks, render requests, and batches delivered by concurrent tasks —
/// is funneled through one queue and drained one at a time, in the order it
/// was enqueued, so no two update cycles overlap.
#[derive(Debug)]
pub struct ActionBus {
    /// The queued actions, oldest first.
    pub queue: Vec<Action>,
}

impl ActionBus {
    /// An empty channel.
    pub fn new() -> (r: Self)
        ensures
            r.queue@.len() == 0,
    {
        ActionBus { queue: Vec::new() }
    }

    /// Enqueue one action at the tail.
    pub fn send(&mut self, action: Action)
        ensures
            final(self).queue@ == old(self).queue@.push(action),
    {
        self.queue.push(action);
    }

    /// Enqueue a batch of actions at the tail, keeping their order.
    #[verifier::loop_isolation(false)]
    pub fn send_all(&mut self, mut actions: Vec<Action>)
        ensures
            final(self).queue@ == old(self).queue@ + actions@,
    {
        let ghost batch = actions@;
        let mut i: usize = 0;
        let len = actions.len();
        while i < len
            invariant
                i <= batch.len(),
                len == batch.len(),
                actions@ == batch.skip(i as int),
                self.queue@ == old(self).queue@ + batch.take(i as int),
            decreases batch.len() - i,
        {
            let a = actions.remove(0);
            proof {
                assert(a == batch[i as int]);
            }
            self.queue.push(a);
            i = i + 1;
            proof {
                assert(actions@ =~= batch.skip(i as int));
                assert(self.queue@ =~= old(self).queue@ + batch.take(i as int));
            }
        }
        proof {
            assert(batch.take(batch.len() as int) =~= batch);
        }
    }

    /// Dequeue the oldest action, if one is queued: strict FIFO order.
    pub fn recv(&mut self) -> (r: Option<Action>)
        ensures
            old(self).queue@.len() == 0 ==> (r is None && *final(self) == *old(self)),
            old(self).queue@.len() > 0 ==> (r matches Some(a) && a == old(self).queue@[0]
                && final(self).queue@ == old(self).queue@.skip(1)),
    {
        if self.queue.len() > 0 {
            let a = self.queue.remove(0);
            proof {
                assert(self.queue@ =~= old(self).queue@.skip(1));
            }
            Some(a)
        } else {
            None
        }
    }
}

/// An effect the update cycle asks its surroundings to perform. The engine
/// never performs I/O itself: it decides, and the caller carries the effect
/// out.
#[derive(Clone, Debug)]
pub enum Effect {
    /// Write this content to the durable selection store.
    PersistSelection(String),
    /// Place this deep link on the clipboard.
    CopyUrl(String),
    /// Write this content, the starred records one per line, to a fresh
    /// timestamped file.
    ExportContent(String),
    /// Open a live-tail subscription on behalf of the session with this
    /// epoch, for the group identifiers that session now holds.
    StartStream { epoch: u64 },
    /// Signal cancellation to the session with this epoch.
    CancelStream { epoch: u64 },
}

} // verus!
