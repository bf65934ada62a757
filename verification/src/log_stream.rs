//! The stream view: a bounded rolling window of received records with a
//! follow cursor, a set of starred records, and export of starred records.
//!
//! The buffer holds the most recent records, at most
//! [`MAX_BUFFERED_RECORDS`]; when an append would exceed that, the oldest
//! records are evicted first (strict FIFO, never content-based). A cursor
//! selects either a concrete index or the synthetic tail sentinel (index ==
//! length); if the cursor sat at the tail sentinel before an append it is
//! re-pinned to the new tail, otherwise it is left alone so that a reader who
//! scrolled back is not yanked forward by new arrivals.

use vstd::prelude::*;
use std::collections::VecDeque;
use crate::action::{Action, ComponentPayload, Effect, KeyInput};
use crate::outer_layout::{Message, MessageView, NewRecord, NewRecordView};

verus! {

/// Capacity of the rolling record buffer.
pub const MAX_BUFFERED_RECORDS: usize = 1000;

/// Payload announcing that starred records were exported.
#[derive(Clone, Debug, PartialEq)]
pub struct ExportLogs {
    /// Path of the file the export was written to.
    pub filepath: String,
}

/// Payload announcing that a record was highlighted for detail viewing.
#[derive(Debug, PartialEq)]
pub struct SelectLog {
    /// The highlighted record.
    pub selected_log: Message,
}

impl Clone for SelectLog {
    fn clone(&self) -> (r: Self)
        ensures
            r.selected_log@ == self.selected_log@,
    {
        SelectLog { selected_log: self.selected_log.clone() }
    }
}

/// The records of a batch once the buffer has assigned them ids: the `i`-th
/// record of the batch gets id `base + i`.
pub open spec fn spec_assigned(batch: Seq<NewRecordView>, base: u64) -> Seq<MessageView> {
    Seq::new(
        batch.len(),
        |i: int|
            MessageView {
                id: (base + i) as u64,
                content: batch[i].content,
                datetime: batch[i].datetime,
                url: batch[i].url,
            },
    )
}

/// The buffer contents after appending a batch: the concatenation in arrival
/// order, with the oldest records evicted until at most
/// [`MAX_BUFFERED_RECORDS`] remain.
pub open spec fn spec_appended(
    prior: Seq<MessageView>,
    batch: Seq<NewRecordView>,
    base: u64,
) -> Seq<MessageView> {
    let combined = prior + spec_assigned(batch, base);
    if combined.len() > MAX_BUFFERED_RECORDS {
        combined.skip(combined.len() - MAX_BUFFERED_RECORDS)
    } else {
        combined
    }
}

/// The starred records with the given id removed, order otherwise kept.
pub open spec fn spec_remove_starred(saved: Seq<MessageView>, id: u64) -> Seq<MessageView> {
    saved.filter(|x: MessageView| x.id != id)
}

/// The starred records after toggling a record: if its id is already starred
/// it is removed, else the record is appended.
pub open spec fn spec_toggle_star(saved: Seq<MessageView>, m: MessageView) -> Seq<MessageView> {
    if exists|k: int| 0 <= k < saved.len() && saved[k].id == m.id {
        spec_remove_starred(saved, m.id)
    } else {
        saved.push(m)
    }
}

/// The export of the starred records: the raw content of each, one per line,
/// in the order the records were starred.
pub open spec fn spec_export_content(saved: Seq<MessageView>) -> Seq<char>
    decreases saved.len(),
{
    if saved.len() == 0 {
        Seq::empty()
    } else {
        spec_export_content(saved.drop_last()) + saved.last().content + seq!['\n']
    }
}

/// The stream view component.
#[derive(Debug)]
pub struct LogStream {
    /// The rolling window of received records, oldest first; insertion order
    /// is arrival order.
    pub received_logs: VecDeque<Message>,
    /// The follow cursor: an index into `received_logs`, or the tail sentinel
    /// (equal to the length) while the view follows new arrivals.
    pub cursor: usize,
    /// The starred records, in the order they were starred. A record stays
    /// starred even after eviction from the window.
    pub saved_logs: Vec<Message>,
    /// The id the next arriving record will get; ids grow monotonically.
    pub next_id: u64,
}

impl LogStream {
    /// Structural invariant: the window is bounded, the cursor is an index or
    /// the tail sentinel, ids in the window grow strictly with arrival order
    /// and stay below `next_id`, and no id is starred twice.
    pub open spec fn wf(&self) -> bool {
        &&& self.received_logs@.len() <= MAX_BUFFERED_RECORDS
        &&& self.cursor <= self.received_logs@.len()
        &&& forall|i: int, j: int|
            0 <= i < j < self.received_logs@.len() ==> self.received_logs@[i]@.id
                < self.received_logs@[j]@.id
        &&& forall|i: int|
            0 <= i < self.received_logs@.len() ==> self.received_logs@[i]@.id < self.next_id
        &&& forall|i: int, j: int|
            0 <= i < j < self.saved_logs@.len() ==> self.saved_logs@[i]@.id
                != self.saved_logs@[j]@.id
    }

    /// What an append of `batchv` does to the component: ids are assigned
    /// sequentially, the window rolls FIFO, the stars are untouched, and the
    /// cursor follows the tail exactly if it sat at the tail sentinel before.
    pub open spec fn spec_post_append(pre: LogStream, post: LogStream, batchv: Seq<NewRecordView>) -> bool {
        &&& post.next_id == pre.next_id + batchv.len()
        &&& post.received_logs.deep_view() == spec_appended(
            pre.received_logs.deep_view(),
            batchv,
            pre.next_id,
        )
        &&& post.saved_logs == pre.saved_logs
        &&& (pre.cursor == pre.received_logs@.len() ==> post.cursor == post.received_logs@.len())
        &&& (pre.cursor < pre.received_logs@.len() ==> post.cursor == pre.cursor)
    }

    /// Whether the view is in follow mode: the cursor sits at the tail
    /// sentinel, one past the last real record.
    pub fn is_follow_log(&self) -> (r: bool)
        ensures
            r == (self.cursor == self.received_logs@.len()),
    {
        self.cursor == self.received_logs.len()
    }

    /// The record the cursor points at, if it points at a concrete index
    /// rather than the tail sentinel.
    pub fn get_selected_log(&self) -> (r: Option<&Message>)
        ensures
            self.cursor < self.received_logs@.len() ==> (r matches Some(m) && m@
                == self.received_logs.deep_view()[self.cursor as int]),
            self.cursor >= self.received_logs@.len() ==> r is None,
    {
        if self.cursor < self.received_logs.len() {
            Some(&self.received_logs[self.cursor])
        } else {
            None
        }
    }

    /// Append a batch of records in arrival order, assigning each the next
    /// id; if the result exceeds the capacity, evict from the front until
    /// exactly the capacity remains, and re-pin the cursor to the new tail if
    /// it sat at the tail sentinel before the append.
    #[verifier::loop_isolation(false)]
    pub fn append(&mut self, batch: &Vec<NewRecord>)
        requires
            old(self).wf(),
            old(self).next_id + batch@.len() <= u64::MAX,
        ensures
            final(self).wf(),
            LogStream::spec_post_append(*old(self), *final(self), batch.deep_view()),
            final(self).received_logs@.len() <= MAX_BUFFERED_RECORDS,
    {
        let ghost prior = self.received_logs.deep_view();
        let ghost batchv = batch.deep_view();
        let ghost base = self.next_id;
        let was_follow = self.is_follow_log();
        let mut i: usize = 0;
        while i < batch.len()
            invariant
                i <= batch@.len(),
                self.next_id == base + i,
                self.received_logs.deep_view() == prior + spec_assigned(
                    batchv.take(i as int),
                    base,
                ),
                self.cursor == old(self).cursor,
                self.saved_logs == old(self).saved_logs,
            decreases batch@.len() - i,
        {
            let rec = &batch[i];
            let m = Message {
                id: self.next_id,
                content: rec.content.clone(),
                datetime: rec.datetime,
                url: rec.url.clone(),
            };
            let ghost mview = m@;
            let ghost before = self.received_logs.deep_view();
            self.received_logs.push_back(m);
            self.next_id = self.next_id + 1;
            proof {
                assert(batchv[i as int] == batch@[i as int]@);
                assert(mview == spec_assigned(batchv.take(i as int + 1), base)[i as int]);
                let lhs = self.received_logs.deep_view();
                let rhs = prior + spec_assigned(batchv.take(i as int + 1), base);
                assert forall|t: int| 0 <= t < lhs.len() implies lhs[t] == rhs[t] by {
                    if t < before.len() {
                        assert(lhs[t] == before[t]);
                        assert(before[t] == (prior + spec_assigned(batchv.take(i as int), base))[
                            t]);
                        if t >= prior.len() {
                            assert(batchv.take(i as int)[t - prior.len()] == batchv[t
                                - prior.len()]);
                            assert(batchv.take(i as int + 1)[t - prior.len()] == batchv[t
                                - prior.len()]);
                        }
                    } else {
                        assert(lhs[t] == mview);
                    }
                }
                assert(lhs =~= rhs);
            }
            i = i + 1;
        }
        proof {
            assert(batchv.take(batchv.len() as int) =~= batchv);
        }
        let ghost full = prior + spec_assigned(batchv, base);
        while self.received_logs.len() > MAX_BUFFERED_RECORDS
            invariant
                self.received_logs@.len() <= full.len(),
                self.received_logs@.len() >= MAX_BUFFERED_RECORDS || self.received_logs@.len()
                    == full.len(),
                self.received_logs.deep_view() == full.skip(
                    full.len() - self.received_logs@.len(),
                ),
                self.cursor == old(self).cursor,
                self.saved_logs == old(self).saved_logs,
                self.next_id == base + batchv.len(),
            decreases self.received_logs@.len(),
        {
            let ghost before = self.received_logs.deep_view();
            self.received_logs.pop_front();
            proof {
                assert(self.received_logs.deep_view() =~= before.skip(1));
                assert(before.skip(1) =~= full.skip(full.len() - self.received_logs@.len()));
            }
        }
        if was_follow {
            self.cursor = self.received_logs.len();
        }
        proof {
            let post = self.received_logs.deep_view();
            assert(post =~= spec_appended(prior, batchv, base));
            // ids grow with arrival order across the old window and the batch
            assert forall|i: int, j: int|
                0 <= i < j < full.len() implies full[i].id < full[j].id by {
                if j < prior.len() {
                } else if i < prior.len() {
                    assert(prior[i].id < base);
                } else {
                }
            }
            let off = full.len() - post.len();
            assert forall|i: int, j: int|
                0 <= i < j < post.len() implies post[i].id < post[j].id by {
                assert(post[i] == full[off + i]);
                assert(post[j] == full[off + j]);
            }
            assert forall|i: int| 0 <= i < post.len() implies post[i].id < self.next_id by {
                assert(post[i] == full[off + i]);
            }
            assert forall|i: int, j: int|
                0 <= i < j < self.received_logs@.len() implies self.received_logs@[i]@.id
                < self.received_logs@[j]@.id by {
                assert(self.received_logs@[i]@ == post[i]);
                assert(self.received_logs@[j]@ == post[j]);
            }
            assert forall|i: int|
                0 <= i < self.received_logs@.len() implies self.received_logs@[i]@.id
                < self.next_id by {
                assert(self.received_logs@[i]@ == post[i]);
            }
        }
    }

    /// Toggle the star on the record the cursor points at: if its id is
    /// starred, unstar it; else star the record, appending it to the starred
    /// list. At the tail sentinel nothing changes.
    #[verifier::loop_isolation(false)]
    pub fn toggle_star(&mut self)
        requires
            old(self).wf(),
        ensures
            final(self).wf(),
            final(self).received_logs == old(self).received_logs,
            final(self).cursor == old(self).cursor,
            final(self).next_id == old(self).next_id,
            old(self).cursor < old(self).received_logs@.len() ==> final(self).saved_logs.deep_view()
                == spec_toggle_star(
                old(self).saved_logs.deep_view(),
                old(self).received_logs.deep_view()[old(self).cursor as int],
            ),
            old(self).cursor >= old(self).received_logs@.len() ==> final(self).saved_logs == old(
                self,
            ).saved_logs,
    {
        if self.cursor >= self.received_logs.len() {
            return ;
        }
        let ghost savedv = self.saved_logs.deep_view();
        let ghost target = self.received_logs.deep_view()[self.cursor as int];
        let id = self.received_logs[self.cursor].id;
        let mut found = false;
        let mut k: usize = 0;
        while k < self.saved_logs.len()
            invariant
                k <= self.saved_logs@.len(),
                self.saved_logs == old(self).saved_logs,
                found == exists|t: int| 0 <= t < k && savedv[t].id == id,
            decreases self.saved_logs@.len() - k,
        {
            proof {
                assert(savedv[k as int] == self.saved_logs@[k as int]@);
            }
            if self.saved_logs[k].id == id {
                found = true;
                proof {
                    assert(savedv[k as int].id == id);
                }
            }
            k = k + 1;
        }
        proof {
            assert(target.id == id);
        }
        if found {
            let mut kept: Vec<Message> = Vec::new();
            let mut t: usize = 0;
            while t < self.saved_logs.len()
                invariant
                    t <= self.saved_logs@.len(),
                    self.saved_logs == old(self).saved_logs,
                    kept.deep_view() == spec_remove_starred(savedv.take(t as int), id),
                decreases self.saved_logs@.len() - t,
            {
                proof {
                    lemma_remove_starred_push(savedv.take(t as int), savedv[t as int], id);
                    assert(savedv.take(t as int).push(savedv[t as int]) =~= savedv.take(
                        t as int + 1,
                    ));
                }
                if self.saved_logs[t].id != id {
                    let m = self.saved_logs[t].clone();
                    kept.push(m);
                    proof {
                        assert(kept.deep_view() =~= spec_remove_starred(
                            savedv.take(t as int + 1),
                            id,
                        ));
                    }
                }
                t = t + 1;
            }
            proof {
                assert(savedv.take(savedv.len() as int) =~= savedv);
            }
            self.saved_logs = kept;
            proof {
                lemma_remove_starred_distinct(savedv, id);
                assert forall|i: int, j: int|
                    0 <= i < j < self.saved_logs@.len() implies self.saved_logs@[i]@.id
                    != self.saved_logs@[j]@.id by {
                    assert(self.saved_logs.deep_view()[i] == spec_remove_starred(savedv, id)[i]);
                    assert(self.saved_logs.deep_view()[j] == spec_remove_starred(savedv, id)[j]);
                }
            }
        } else {
            let m = self.received_logs[self.cursor].clone();
            self.saved_logs.push(m);
            proof {
                assert(self.saved_logs.deep_view() =~= savedv.push(target));
                assert forall|i: int, j: int|
                    0 <= i < j < self.saved_logs@.len() implies self.saved_logs@[i]@.id
                    != self.saved_logs@[j]@.id by {
                    if j == self.saved_logs@.len() - 1 {
                        assert(savedv[i].id != id);
                        assert(self.saved_logs@[j]@.id == target.id);
                        assert(self.saved_logs@[i]@.id == savedv[i].id);
                    } else {
                        assert(self.saved_logs@[i]@.id == savedv[i].id);
                        assert(self.saved_logs@[j]@.id == savedv[j].id);
                    }
                }
            }
        }
    }

    /// The export of the starred records: the raw content of each, one per
    /// line, in the order they were starred.
    #[verifier::loop_isolation(false)]
    pub fn export_content(&self) -> (r: String)
        ensures
            r@ == spec_export_content(self.saved_logs.deep_view()),
    {
        proof {
            reveal_strlit("\n");
        }
        let ghost savedv = self.saved_logs.deep_view();
        let mut out = String::new();
        let mut i: usize = 0;
        while i < self.saved_logs.len()
            invariant
                i <= self.saved_logs@.len(),
                out@ == spec_export_content(savedv.take(i as int)),
            decreases self.saved_logs@.len() - i,
        {
            out.append(self.saved_logs[i].content.as_str());
            out.append("\n");
            proof {
                assert(savedv.take(i as int + 1).drop_last() =~= savedv.take(i as int));
                assert("\n"@ =~= seq!['\n']);
            }
            i = i + 1;
        }
        proof {
            assert(savedv.take(savedv.len() as int) =~= savedv);
        }
        out
    }

    /// Handle a batch-arrival action: a `ReceiveNewLog` payload is appended
    /// to the window; every other action leaves the view unchanged.
    pub fn update(&mut self, action: &Action)
        requires
            old(self).wf(),
            action matches Action::ComponentAction(ComponentPayload::ReceiveNewLog(r)) ==> old(
                self,
            ).next_id + r.new_messages@.len() <= u64::MAX,
        ensures
            final(self).wf(),
            action matches Action::ComponentAction(ComponentPayload::ReceiveNewLog(r))
                ==> LogStream::spec_post_append(
                *old(self),
                *final(self),
                r.new_messages.deep_view(),
            ),
            !(action matches Action::ComponentAction(ComponentPayload::ReceiveNewLog(_)))
                ==> *final(self) == *old(self),
    {
        match action {
            Action::ComponentAction(ComponentPayload::ReceiveNewLog(r)) => {
                self.append(&r.new_messages);
            },
            _ => {},
        }
    }

    /// What one logical key does to the stream view; the full contract of
    /// [`LogStream::handle_key_event`].
    pub open spec fn spec_post_handle_key(
        pre: LogStream,
        post: LogStream,
        key: KeyInput,
        acts: Seq<Action>,
        effs: Seq<Effect>,
    ) -> bool {
        &&& post.received_logs == pre.received_logs
        &&& post.next_id == pre.next_id
        &&& (key is Toggle ==> {
            &&& post.cursor == pre.cursor
            &&& acts.len() == 0 && effs.len() == 0
            &&& (pre.cursor < pre.received_logs@.len() ==> post.saved_logs.deep_view()
                == spec_toggle_star(
                pre.saved_logs.deep_view(),
                pre.received_logs.deep_view()[pre.cursor as int],
            ))
            &&& (pre.cursor >= pre.received_logs@.len() ==> post.saved_logs == pre.saved_logs)
        })
        &&& (key is Up ==> {
            &&& post.saved_logs == pre.saved_logs
            &&& post.cursor == (if pre.cursor > 0 {
                pre.cursor - 1
            } else {
                0int
            })
            &&& effs.len() == 0
            &&& spec_selection_announced(&post, acts)
        })
        &&& (key is Down ==> {
            &&& post.saved_logs == pre.saved_logs
            &&& post.cursor == (if pre.cursor < pre.received_logs@.len() {
                pre.cursor + 1
            } else {
                pre.cursor as int
            })
            &&& effs.len() == 0
            &&& spec_selection_announced(&post, acts)
        })
        &&& (key is CopyUrl ==> {
            &&& post == pre
            &&& acts.len() == 0
            &&& (pre.cursor < pre.received_logs@.len() ==> effs.len() == 1 && (effs[0] matches
            Effect::CopyUrl(u) && u@ == pre.received_logs.deep_view()[pre.cursor as int].url))
            &&& (pre.cursor >= pre.received_logs@.len() ==> effs.len() == 0)
        })
        &&& (key is Export ==> {
            &&& post == pre
            &&& acts.len() == 0
            &&& (pre.saved_logs@.len() > 0 ==> effs.len() == 1 && (effs[0] matches
            Effect::ExportContent(c) && c@ == spec_export_content(pre.saved_logs.deep_view())))
            &&& (pre.saved_logs@.len() == 0 ==> effs.len() == 0)
        })
        &&& ((key is SwitchFocus || key is Other) ==> (post == pre && acts.len() == 0 && effs.len()
            == 0))
    }

    /// Handle a logical key: `Toggle` stars or unstars the highlighted
    /// record; `Up` and `Down` move the cursor (bounded by the first record
    /// and the tail sentinel) and announce the newly highlighted record;
    /// `CopyUrl` asks for the highlighted record's deep link to be copied;
    /// `Export` asks for the starred records to be written out, if any are
    /// starred. Other keys are ignored.
    pub fn handle_key_event(&mut self, key: KeyInput) -> (r: (Vec<Action>, Vec<Effect>))
        requires
            old(self).wf(),
        ensures
            final(self).wf(),
            LogStream::spec_post_handle_key(*old(self), *final(self), key, r.0@, r.1@),
    {
        let mut actions: Vec<Action> = Vec::new();
        let mut effects: Vec<Effect> = Vec::new();
        match key {
            KeyInput::Toggle => {
                self.toggle_star();
            },
            KeyInput::Up => {
                if self.cursor > 0 {
                    self.cursor = self.cursor - 1;
                }
                if let Some(log) = self.get_selected_log() {
                    let payload = SelectLog { selected_log: log.clone() };
                    actions.push(Action::ComponentAction(ComponentPayload::SelectLog(payload)));
                }
            },
            KeyInput::Down => {
                if self.cursor < self.received_logs.len() {
                    self.cursor = self.cursor + 1;
                }
                if let Some(log) = self.get_selected_log() {
                    let payload = SelectLog { selected_log: log.clone() };
                    actions.push(Action::ComponentAction(ComponentPayload::SelectLog(payload)));
                }
            },
            KeyInput::CopyUrl => {
                if let Some(log) = self.get_selected_log() {
                    let url = log.url.clone();
                    effects.push(Effect::CopyUrl(url));
                }
            },
            KeyInput::Export => {
                if self.saved_logs.len() > 0 {
                    let content = self.export_content();
                    effects.push(Effect::ExportContent(content));
                }
            },
            _ => {},
        }
        (actions, effects)
    }
}

/// After a cursor move, exactly the newly highlighted record is announced: a
/// single `SelectLog` action if the cursor points at a record, none at the
/// tail sentinel.
pub open spec fn spec_selection_announced(post: &LogStream, acts: Seq<Action>) -> bool {
    if post.cursor < post.received_logs@.len() {
        acts.len() == 1 && (acts[0] matches Action::ComponentAction(ComponentPayload::SelectLog(p))
            && p.selected_log@ == post.received_logs.deep_view()[post.cursor as int])
    } else {
        acts.len() == 0
    }
}

impl Default for LogStream {
    /// An empty stream view: no records, no stars, the cursor at the tail
    /// sentinel of the empty window, ids starting at zero.
    fn default() -> (r: Self)
        ensures
            r.wf(),
            r.received_logs@.len() == 0,
            r.cursor == 0,
            r.saved_logs@.len() == 0,
            r.next_id == 0,
    {
        LogStream {
            received_logs: VecDeque::new(),
            cursor: 0,
            saved_logs: Vec::new(),
            next_id: 0,
        }
    }
}

/// Removing an id distributes over appending one record: the record survives
/// the removal exactly if it does not carry the id.
proof fn lemma_remove_starred_push(s: Seq<MessageView>, x: MessageView, id: u64)
    ensures
        spec_remove_starred(s.push(x), id) == if x.id != id {
            spec_remove_starred(s, id).push(x)
        } else {
            spec_remove_starred(s, id)
        },
{
    reveal(Seq::filter);
    assert(s.push(x).drop_last() =~= s);
    assert(s.push(x).last() == x);
}

/// Removing an id from a list of pairwise-distinct ids keeps the remaining
/// ids pairwise distinct; every surviving record comes from the original
/// list.
proof fn lemma_remove_starred_distinct(s: Seq<MessageView>, id: u64)
    requires
        forall|i: int, j: int| 0 <= i < j < s.len() ==> s[i].id != s[j].id,
    ensures
        forall|i: int, j: int|
            0 <= i < j < spec_remove_starred(s, id).len() ==> spec_remove_starred(s, id)[i].id
                != spec_remove_starred(s, id)[j].id,
        forall|i: int|
            0 <= i < spec_remove_starred(s, id).len() ==> exists|t: int|
                0 <= t < s.len() && (#[trigger] spec_remove_starred(s, id)[i]) == s[t],
    decreases s.len(),
{
    reveal(Seq::filter);
    if s.len() > 0 {
        lemma_remove_starred_distinct(s.drop_last(), id);
        let rest = spec_remove_starred(s.drop_last(), id);
        let out = spec_remove_starred(s, id);
        assert forall|i: int|
            0 <= i < out.len() implies exists|t: int|
            0 <= t < s.len() && (#[trigger] out[i]) == s[t] by {
            if s.last().id != id && i == out.len() - 1 {
                assert(out[i] == s[s.len() - 1]);
            } else {
                assert(out[i] == rest[i]);
                let t = choose|t: int| 0 <= t < s.len() - 1 && rest[i] == s.drop_last()[t];
                assert(out[i] == s[t]);
            }
        }
        if s.last().id != id {
            assert(out =~= rest.push(s.last()));
            assert forall|i: int, j: int|
                0 <= i < j < out.len() implies out[i].id != out[j].id by {
                if j == out.len() - 1 {
                    let t = choose|t: int|
                        0 <= t < s.len() - 1 && rest[i] == s.drop_last()[t];
                    assert(s[t].id != s.last().id);
                }
            }
        } else {
            assert(out =~= rest);
        }
    }
}

} // verus!
