//! The group list: the fetched collection of log groups and the selection of
//! groups that are active for live tailing, with durable persistence of the
//! selection by group name.
//!
//! The selection is a set of at most [`MAX_SELECTED_GROUPS`] indices into the
//! currently loaded collection, kept in ascending order. Every successful
//! mutation recomputes the resolved group list, asks for the set of group
//! names to be persisted, and announces the new selection; a toggle beyond
//! the cap changes nothing (a soft cap, no error raised). On a fresh fetch
//! the collection is replaced wholesale and the persisted names are matched
//! against it; names with no match are dropped silently.

use vstd::prelude::*;
use crate::action::{Action, ComponentPayload, Effect, KeyInput};
use vstd::seq_lib::lemma_multiset_commutative;
use crate::text::{
    is_blank,
    join_names,
    spec_is_blank,
    spec_joined_names,
    spec_lines,
    spec_name_saved,
    split_lines,
};

verus! {

/// Cap on how many groups can be selected at once: a policy constant, not a
/// hard protocol limit.
pub const MAX_SELECTED_GROUPS: usize = 10;

/// A named collection of log streams at the remote source; the unit of
/// subscription. Immutable once fetched: a fresh fetch replaces the whole
/// collection and invalidates prior index-based references.
#[derive(Debug, PartialEq)]
pub struct LogGroup {
    /// Display name.
    pub name: String,
    /// Opaque remote key used to open a subscription.
    pub arn: String,
    /// Creation timestamp, in milliseconds since the epoch.
    pub creation_time: i64,
}

/// The mathematical content of a [`LogGroup`]: its strings as character
/// sequences.
pub ghost struct LogGroupView {
    pub name: Seq<char>,
    pub arn: Seq<char>,
    pub creation_time: i64,
}

impl View for LogGroup {
    type V = LogGroupView;

    open spec fn view(&self) -> LogGroupView {
        LogGroupView { name: self.name@, arn: self.arn@, creation_time: self.creation_time }
    }
}

impl DeepView for LogGroup {
    type V = LogGroupView;

    open spec fn deep_view(&self) -> LogGroupView {
        self.view()
    }
}

impl Clone for LogGroup {
    fn clone(&self) -> (r: Self)
        ensures
            r@ == self@,
    {
        LogGroup {
            name: self.name.clone(),
            arn: self.arn.clone(),
            creation_time: self.creation_time,
        }
    }
}

impl Default for LogGroup {
    fn default() -> (r: Self)
        ensures
            r.name@ == Seq::<char>::empty(),
            r.arn@ == Seq::<char>::empty(),
            r.creation_time == 0,
    {
        Self { name: String::new(), arn: String::new(), creation_time: 0 }
    }
}

/// Payload announcing that a fresh group collection has been fetched.
#[derive(Clone, Debug, PartialEq)]
pub struct FetchLogGroups {
    /// The freshly fetched collection, sorted newest-first by creation time.
    pub log_groups: Vec<LogGroup>,
}

/// Payload announcing that the set of selected groups changed, carrying the
/// full resolved group list.
#[derive(Clone, Debug, PartialEq, Default)]
pub struct SelectLogGroup {
    /// The selected groups, in ascending index order.
    pub log_groups: Vec<LogGroup>,
}

/// A strictly increasing index sequence: sorted, with no duplicates.
pub open spec fn spec_sorted_strict(s: Seq<usize>) -> bool {
    forall|i: int, j: int| 0 <= i < j < s.len() ==> s[i] < s[j]
}

/// The sequence with the one occurrence of `v` removed (for strictly sorted
/// sequences), order otherwise kept.
pub open spec fn spec_remove_sorted(s: Seq<usize>, v: usize) -> Seq<usize>
    decreases s.len(),
{
    if s.len() == 0 {
        s
    } else if s[0] == v {
        s.skip(1)
    } else {
        seq![s[0]] + spec_remove_sorted(s.skip(1), v)
    }
}

/// The sequence with `v` inserted at its sorted position.
pub open spec fn spec_insert_sorted(s: Seq<usize>, v: usize) -> Seq<usize>
    decreases s.len(),
{
    if s.len() == 0 {
        seq![v]
    } else if v < s[0] {
        seq![v] + s
    } else {
        seq![s[0]] + spec_insert_sorted(s.skip(1), v)
    }
}

/// A toggle on the selection: a selected index is deselected; an unselected
/// one is selected while fewer than [`MAX_SELECTED_GROUPS`] are, else the
/// toggle is rejected and nothing changes.
pub open spec fn spec_toggle(s: Seq<usize>, v: usize) -> Seq<usize> {
    if s.contains(v) {
        spec_remove_sorted(s, v)
    } else if s.len() < MAX_SELECTED_GROUPS {
        spec_insert_sorted(s, v)
    } else {
        s
    }
}

/// Removal keeps a strictly sorted sequence strictly sorted, shortens it by
/// one exactly when the value was present, and keeps exactly the other
/// values.
pub proof fn lemma_remove_sorted_props(s: Seq<usize>, v: usize)
    requires
        spec_sorted_strict(s),
    ensures
        spec_sorted_strict(spec_remove_sorted(s, v)),
        s.contains(v) ==> spec_remove_sorted(s, v).len() == s.len() - 1,
        !s.contains(v) ==> spec_remove_sorted(s, v) == s,
        forall|x: usize|
            #[trigger] spec_remove_sorted(s, v).contains(x) <==> (s.contains(x) && x != v),
    decreases s.len(),
{
    if s.len() == 0 {
        assert(forall|x: usize| !s.contains(x));
    } else if s[0] == v {
        let out = spec_remove_sorted(s, v);
        assert(out =~= s.skip(1));
        assert(s.contains(v)) by {
            assert(s[0] == v);
        }
        assert forall|x: usize| #[trigger] out.contains(x) implies (s.contains(x) && x != v) by {
            let t = choose|t: int| 0 <= t < out.len() && out[t] == x;
            assert(s[t + 1] == x);
            assert(s[0] < s[t + 1]);
        }
        assert forall|x: usize| s.contains(x) && x != v implies out.contains(x) by {
            let t = choose|t: int| 0 <= t < s.len() && s[t] == x;
            assert(t != 0);
            assert(out[t - 1] == x);
        }
    } else {
        let rest = spec_remove_sorted(s.skip(1), v);
        let out = spec_remove_sorted(s, v);
        assert(spec_sorted_strict(s.skip(1)));
        lemma_remove_sorted_props(s.skip(1), v);
        assert(out =~= seq![s[0]] + rest);
        // the head is below everything that survives in the tail
        assert forall|t: int| 0 <= t < rest.len() implies s[0] < rest[t] by {
            assert(rest.contains(rest[t]));
            let u = choose|u: int| 0 <= u < s.skip(1).len() && s.skip(1)[u] == rest[t];
            assert(s[u + 1] == rest[t]);
        }
        assert(spec_sorted_strict(out));
        if s.contains(v) {
            assert(s.skip(1).contains(v)) by {
                let t = choose|t: int| 0 <= t < s.len() && s[t] == v;
                assert(t != 0);
                assert(s.skip(1)[t - 1] == v);
            }
        }
        if s.skip(1).contains(v) {
            assert(s.contains(v)) by {
                let t = choose|t: int| 0 <= t < s.skip(1).len() && s.skip(1)[t] == v;
                assert(s[t + 1] == v);
            }
        }
        if !s.contains(v) {
            assert(out =~= s);
        }
        assert forall|x: usize| #[trigger] out.contains(x) implies (s.contains(x) && x != v) by {
            let t = choose|t: int| 0 <= t < out.len() && out[t] == x;
            if t == 0 {
                assert(s[0] == x);
            } else {
                assert(rest.contains(x));
                let u = choose|u: int| 0 <= u < s.skip(1).len() && s.skip(1)[u] == x;
                assert(s[u + 1] == x);
            }
        }
        assert forall|x: usize| s.contains(x) && x != v implies out.contains(x) by {
            let t = choose|t: int| 0 <= t < s.len() && s[t] == x;
            if t == 0 {
                assert(out[0] == x);
            } else {
                assert(s.skip(1)[t - 1] == x);
                assert(rest.contains(x));
                let u = choose|u: int| 0 <= u < rest.len() && rest[u] == x;
                assert(out[u + 1] == x);
            }
        }
    }
}

/// Insertion keeps a strictly sorted sequence strictly sorted when the value
/// is new, lengthens it by one, and adds exactly that value.
pub proof fn lemma_insert_sorted_props(s: Seq<usize>, v: usize)
    requires
        spec_sorted_strict(s),
        !s.contains(v),
    ensures
        spec_sorted_strict(spec_insert_sorted(s, v)),
        spec_insert_sorted(s, v).len() == s.len() + 1,
        forall|x: usize|
            #[trigger] spec_insert_sorted(s, v).contains(x) <==> (s.contains(x) || x == v),
    decreases s.len(),
{
    let out = spec_insert_sorted(s, v);
    if s.len() == 0 {
        assert(out =~= seq![v]);
        assert(out[0] == v);
        assert forall|x: usize| #[trigger] out.contains(x) implies (s.contains(x) || x == v) by {
            let t = choose|t: int| 0 <= t < out.len() && out[t] == x;
        }
    } else if v < s[0] {
        assert(out =~= seq![v] + s);
        assert forall|x: usize| #[trigger] out.contains(x) implies (s.contains(x) || x == v) by {
            let t = choose|t: int| 0 <= t < out.len() && out[t] == x;
            if t > 0 {
                assert(s[t - 1] == x);
            }
        }
        assert forall|x: usize| s.contains(x) || x == v implies out.contains(x) by {
            if x == v {
                assert(out[0] == x);
            } else {
                let t = choose|t: int| 0 <= t < s.len() && s[t] == x;
                assert(out[t + 1] == x);
            }
        }
    } else {
        assert(v != s[0]);
        assert(spec_sorted_strict(s.skip(1)));
        assert(!s.skip(1).contains(v)) by {
            if s.skip(1).contains(v) {
                let t = choose|t: int| 0 <= t < s.skip(1).len() && s.skip(1)[t] == v;
                assert(s[t + 1] == v);
            }
        }
        lemma_insert_sorted_props(s.skip(1), v);
        let rest = spec_insert_sorted(s.skip(1), v);
        assert(out =~= seq![s[0]] + rest);
        assert forall|t: int| 0 <= t < rest.len() implies s[0] < rest[t] by {
            assert(rest.contains(rest[t]));
            if rest[t] == v {
            } else {
                assert(s.skip(1).contains(rest[t]));
                let u = choose|u: int| 0 <= u < s.skip(1).len() && s.skip(1)[u] == rest[t];
                assert(s[u + 1] == rest[t]);
            }
        }
        assert(spec_sorted_strict(out));
        assert forall|x: usize| #[trigger] out.contains(x) implies (s.contains(x) || x == v) by {
            let t = choose|t: int| 0 <= t < out.len() && out[t] == x;
            if t == 0 {
                assert(s[0] == x);
            } else {
                assert(rest.contains(x));
                if x != v {
                    assert(s.skip(1).contains(x));
                    let u = choose|u: int| 0 <= u < s.skip(1).len() && s.skip(1)[u] == x;
                    assert(s[u + 1] == x);
                }
            }
        }
        assert forall|x: usize| s.contains(x) || x == v implies out.contains(x) by {
            if x == v {
                assert(rest.contains(v));
                let u = choose|u: int| 0 <= u < rest.len() && rest[u] == v;
                assert(out[u + 1] == v);
            } else {
                let t = choose|t: int| 0 <= t < s.len() && s[t] == x;
                if t == 0 {
                    assert(out[0] == x);
                } else {
                    assert(s.skip(1)[t - 1] == x);
                    assert(rest.contains(x));
                    let u = choose|u: int| 0 <= u < rest.len() && rest[u] == x;
                    assert(out[u + 1] == x);
                }
            }
        }
    }
}

/// Inserting a value back where it was removed restores a strictly sorted
/// sequence.
proof fn lemma_insert_remove_sorted(s: Seq<usize>, v: usize)
    requires
        spec_sorted_strict(s),
        s.contains(v),
    ensures
        spec_insert_sorted(spec_remove_sorted(s, v), v) == s,
    decreases s.len(),
{
    if s[0] == v {
        let rest = s.skip(1);
        assert(spec_remove_sorted(s, v) =~= rest);
        if rest.len() == 0 {
            assert(spec_insert_sorted(rest, v) =~= seq![v]);
            assert(seq![v] =~= s);
        } else {
            assert(v < rest[0]) by {
                assert(s[0] < s[1]);
            }
            assert(spec_insert_sorted(rest, v) =~= seq![v] + rest);
            assert(seq![v] + rest =~= s);
        }
    } else {
        assert(s.skip(1).contains(v)) by {
            let t = choose|t: int| 0 <= t < s.len() && s[t] == v;
            assert(t != 0);
            assert(s.skip(1)[t - 1] == v);
        }
        assert(spec_sorted_strict(s.skip(1)));
        lemma_insert_remove_sorted(s.skip(1), v);
        lemma_remove_sorted_props(s.skip(1), v);
        let rest = spec_remove_sorted(s.skip(1), v);
        assert(spec_remove_sorted(s, v) =~= seq![s[0]] + rest);
        // v is greater than the head, since it sits in the tail
        assert(s[0] < v) by {
            let t = choose|t: int| 0 <= t < s.skip(1).len() && s.skip(1)[t] == v;
            assert(s[t + 1] == v);
        }
        let joined = seq![s[0]] + rest;
        if joined.len() == 0 {
        } else if v < joined[0] {
            assert(false);
        } else {
            assert(joined.skip(1) =~= rest);
            assert(spec_insert_sorted(joined, v) =~= seq![s[0]] + spec_insert_sorted(rest, v));
            assert(seq![s[0]] + s.skip(1) =~= s);
        }
    }
}

/// Removing a freshly inserted value restores a strictly sorted sequence.
proof fn lemma_remove_insert_sorted(s: Seq<usize>, v: usize)
    requires
        spec_sorted_strict(s),
        !s.contains(v),
    ensures
        spec_remove_sorted(spec_insert_sorted(s, v), v) == s,
    decreases s.len(),
{
    if s.len() == 0 {
        assert(spec_insert_sorted(s, v) =~= seq![v]);
        assert(spec_remove_sorted(seq![v], v) =~= seq![v].skip(1));
        assert(seq![v].skip(1) =~= s);
    } else if v < s[0] {
        let ins = seq![v] + s;
        assert(spec_insert_sorted(s, v) =~= ins);
        assert(ins[0] == v);
        assert(spec_remove_sorted(ins, v) =~= ins.skip(1));
        assert(ins.skip(1) =~= s);
    } else {
        assert(v != s[0]);
        assert(s[0] < v);
        assert(spec_sorted_strict(s.skip(1)));
        assert(!s.skip(1).contains(v)) by {
            if s.skip(1).contains(v) {
                let t = choose|t: int| 0 <= t < s.skip(1).len() && s.skip(1)[t] == v;
                assert(s[t + 1] == v);
            }
        }
        lemma_remove_insert_sorted(s.skip(1), v);
        let rest = spec_insert_sorted(s.skip(1), v);
        let ins = seq![s[0]] + rest;
        assert(spec_insert_sorted(s, v) =~= ins);
        assert(ins[0] == s[0]);
        assert(ins[0] != v);
        assert(ins.skip(1) =~= rest);
        assert(spec_remove_sorted(ins, v) =~= seq![s[0]] + spec_remove_sorted(rest, v));
        assert(seq![s[0]] + s.skip(1) =~= s);
    }
}

/// Law: a toggle is an involution. Toggling the same index twice returns the
/// selection to its prior state, whatever the index: a removed index is
/// re-inserted at its sorted place, a fresh index is removed again, and a
/// toggle rejected by the cap changes nothing either time.
pub proof fn lemma_toggle_involution(s: Seq<usize>, v: usize)
    requires
        spec_sorted_strict(s),
        s.len() <= MAX_SELECTED_GROUPS,
    ensures
        spec_toggle(spec_toggle(s, v), v) == s,
{
    if s.contains(v) {
        lemma_remove_sorted_props(s, v);
        let t = spec_remove_sorted(s, v);
        assert(!t.contains(v));
        assert(t.len() < MAX_SELECTED_GROUPS);
        lemma_insert_remove_sorted(s, v);
    } else if s.len() < MAX_SELECTED_GROUPS {
        lemma_insert_sorted_props(s, v);
        let t = spec_insert_sorted(s, v);
        assert(t.contains(v));
        lemma_remove_insert_sorted(s, v);
    } else {
        assert(spec_toggle(s, v) == s);
    }
}

/// Removing the value at its position equals the recursive removal.
proof fn lemma_remove_sorted_at(s: Seq<usize>, v: usize, k: int)
    requires
        spec_sorted_strict(s),
        0 <= k < s.len(),
        s[k] == v,
    ensures
        spec_remove_sorted(s, v) == s.remove(k),
    decreases s.len(),
{
    if k == 0 {
        assert(spec_remove_sorted(s, v) =~= s.remove(0));
    } else {
        assert(s[0] < s[k]);
        assert(spec_sorted_strict(s.skip(1)));
        assert(s.skip(1)[k - 1] == v);
        lemma_remove_sorted_at(s.skip(1), v, k - 1);
        assert(spec_remove_sorted(s, v) =~= seq![s[0]] + s.skip(1).remove(k - 1));
        assert(seq![s[0]] + s.skip(1).remove(k - 1) =~= s.remove(k));
    }
}

/// Inserting the value at the position that keeps the order equals the
/// recursive insertion.
proof fn lemma_insert_sorted_at(s: Seq<usize>, v: usize, p: int)
    requires
        spec_sorted_strict(s),
        0 <= p <= s.len(),
        forall|t: int| 0 <= t < p ==> s[t] < v,
        p < s.len() ==> s[p] > v,
    ensures
        spec_insert_sorted(s, v) == s.insert(p, v),
    decreases s.len(),
{
    if s.len() == 0 {
        assert(spec_insert_sorted(s, v) =~= s.insert(0, v));
    } else if p == 0 {
        assert(v < s[0]);
        assert(spec_insert_sorted(s, v) =~= seq![v] + s);
        assert(seq![v] + s =~= s.insert(0, v));
    } else {
        assert(s[0] < v);
        assert(spec_sorted_strict(s.skip(1)));
        lemma_insert_sorted_at(s.skip(1), v, p - 1);
        assert(spec_insert_sorted(s, v) =~= seq![s[0]] + s.skip(1).insert(p - 1, v));
        assert(seq![s[0]] + s.skip(1).insert(p - 1, v) =~= s.insert(p, v));
    }
}

/// The groups a selection resolves to, in selection order.
pub open spec fn spec_resolved(sel: Seq<usize>, groups: Seq<LogGroupView>) -> Seq<LogGroupView> {
    Seq::new(sel.len(), |k: int| groups[sel[k] as int])
}

/// The names the selection persists, in selection order.
pub open spec fn spec_selected_names(sel: Seq<usize>, groups: Seq<LogGroupView>) -> Seq<Seq<char>> {
    Seq::new(sel.len(), |k: int| groups[sel[k] as int].name)
}

/// The selection restored from persisted lines against freshly fetched
/// groups, considering the first `k` groups: each group whose name stands in
/// the lines is selected, in index order, until the cap is reached; unmatched
/// names are dropped silently.
pub open spec fn spec_restored(
    groups: Seq<LogGroupView>,
    lines: Seq<Seq<char>>,
    k: int,
) -> Seq<usize>
    decreases k,
{
    if k <= 0 {
        Seq::empty()
    } else {
        let rest = spec_restored(groups, lines, k - 1);
        if spec_name_saved(lines, groups[k - 1].name) && rest.len() < MAX_SELECTED_GROUPS {
            rest.push((k - 1) as usize)
        } else {
            rest
        }
    }
}

/// A restored selection is strictly sorted, within the cap, and only selects
/// groups below `k`.
pub proof fn lemma_restored_props(groups: Seq<LogGroupView>, lines: Seq<Seq<char>>, k: int)
    requires
        k <= usize::MAX,
    ensures
        spec_sorted_strict(spec_restored(groups, lines, k)),
        spec_restored(groups, lines, k).len() <= MAX_SELECTED_GROUPS,
        forall|t: int|
            0 <= t < spec_restored(groups, lines, k).len() ==> spec_restored(groups, lines, k)[t]
                < k,
    decreases k,
{
    if k > 0 {
        lemma_restored_props(groups, lines, k - 1);
        let rest = spec_restored(groups, lines, k - 1);
        let out = spec_restored(groups, lines, k);
        if spec_name_saved(lines, groups[k - 1].name) && rest.len() < MAX_SELECTED_GROUPS {
            assert forall|i: int, j: int| 0 <= i < j < out.len() implies out[i] < out[j] by {
                assert(out =~= rest.push((k - 1) as usize));
                if j == out.len() - 1 {
                    assert(out[i] == rest[i]);
                    assert(rest[i] < k - 1);
                } else {
                    assert(out[i] == rest[i]);
                    assert(out[j] == rest[j]);
                }
            }
        }
    }
}

/// The group-list component: the loaded collection, the highlight cursor,
/// the selection, and the content last read from the durable selection
/// store.
#[derive(Debug)]
pub struct LogGroupList {
    /// The currently loaded group collection, replaced wholesale by a fetch.
    pub loaded_log_groups: Vec<LogGroup>,
    /// The highlighted row.
    pub cursor: usize,
    /// Indices of the selected groups, in ascending order, at most
    /// [`MAX_SELECTED_GROUPS`] of them, each below the collection's length.
    pub selected_log_groups: Vec<usize>,
    /// The content of the durable selection store as read at startup, if it
    /// was readable; restored against every fresh fetch.
    pub persisted: Option<String>,
}

impl LogGroupList {
    /// Structural invariant: the selection is a strictly ascending index
    /// sequence within the cap, every index lands in the loaded collection,
    /// and the cursor highlights a loaded row (or nothing when none are
    /// loaded).
    pub open spec fn wf(&self) -> bool {
        &&& spec_sorted_strict(self.selected_log_groups@)
        &&& self.selected_log_groups@.len() <= MAX_SELECTED_GROUPS
        &&& forall|t: int|
            0 <= t < self.selected_log_groups@.len() ==> self.selected_log_groups@[t]
                < self.loaded_log_groups@.len()
        &&& (self.loaded_log_groups@.len() == 0 ==> self.cursor == 0)
        &&& (self.loaded_log_groups@.len() > 0 ==> self.cursor < self.loaded_log_groups@.len())
    }

    /// Toggle the selection of the group at `index`: deselect it if selected;
    /// select it if fewer than the cap are selected; else reject the toggle.
    /// Returns whether the selection changed.
    #[verifier::loop_isolation(false)]
    pub fn toggle(&mut self, index: usize) -> (changed: bool)
        requires
            old(self).wf(),
            index < old(self).loaded_log_groups@.len(),
        ensures
            final(self).wf(),
            final(self).loaded_log_groups == old(self).loaded_log_groups,
            final(self).cursor == old(self).cursor,
            final(self).persisted == old(self).persisted,
            final(self).selected_log_groups@ == spec_toggle(
                old(self).selected_log_groups@,
                index,
            ),
            changed == (old(self).selected_log_groups@.contains(index) || old(
                self,
            ).selected_log_groups@.len() < MAX_SELECTED_GROUPS),
    {
        let ghost sel = self.selected_log_groups@;
        let mut k: usize = 0;
        while k < self.selected_log_groups.len() && self.selected_log_groups[k] != index
            invariant
                k <= sel.len(),
                self.selected_log_groups@ == sel,
                forall|t: int| 0 <= t < k ==> sel[t] != index,
            decreases sel.len() - k,
        {
            k = k + 1;
        }
        if k < self.selected_log_groups.len() {
            proof {
                assert(sel[k as int] == index);
                assert(sel.contains(index));
                lemma_remove_sorted_at(sel, index, k as int);
                lemma_remove_sorted_props(sel, index);
            }
            self.selected_log_groups.remove(k);
            proof {
                assert forall|t: int|
                    0 <= t < self.selected_log_groups@.len() implies self.selected_log_groups@[t]
                    < self.loaded_log_groups@.len() by {
                    assert(self.selected_log_groups@.contains(self.selected_log_groups@[t]));
                    let u = choose|u: int| 0 <= u < sel.len() && sel[u]
                        == self.selected_log_groups@[t];
                }
            }
            true
        } else {
            proof {
                if sel.contains(index) {
                    let t = choose|t: int| 0 <= t < sel.len() && sel[t] == index;
                    assert(false);
                }
            }
            if self.selected_log_groups.len() < MAX_SELECTED_GROUPS {
                let mut p: usize = 0;
                while p < self.selected_log_groups.len() && self.selected_log_groups[p] < index
                    invariant
                        p <= sel.len(),
                        self.selected_log_groups@ == sel,
                        forall|t: int| 0 <= t < p ==> sel[t] < index,
                    decreases sel.len() - p,
                {
                    p = p + 1;
                }
                proof {
                    if p < sel.len() {
                        assert(sel[p as int] != index);
                        assert(sel[p as int] > index);
                    }
                    lemma_insert_sorted_at(sel, index, p as int);
                    lemma_insert_sorted_props(sel, index);
                }
                self.selected_log_groups.insert(p, index);
                proof {
                    assert forall|t: int|
                        0 <= t < self.selected_log_groups@.len() implies self.selected_log_groups@[
                        t] < self.loaded_log_groups@.len() by {
                        assert(self.selected_log_groups@.contains(self.selected_log_groups@[t]));
                    }
                }
                true
            } else {
                false
            }
        }
    }

    /// The selected groups, resolved against the loaded collection, in
    /// ascending index order.
    #[verifier::loop_isolation(false)]
    pub fn selected_groups(&self) -> (r: Vec<LogGroup>)
        requires
            self.wf(),
        ensures
            r.deep_view() == spec_resolved(
                self.selected_log_groups@,
                self.loaded_log_groups.deep_view(),
            ),
    {
        let ghost sel = self.selected_log_groups@;
        let ghost groupsv = self.loaded_log_groups.deep_view();
        let mut out: Vec<LogGroup> = Vec::new();
        let mut k: usize = 0;
        while k < self.selected_log_groups.len()
            invariant
                k <= sel.len(),
                out.deep_view() == spec_resolved(sel, groupsv).take(k as int),
            decreases sel.len() - k,
        {
            let idx = self.selected_log_groups[k];
            let g = self.loaded_log_groups[idx].clone();
            out.push(g);
            k = k + 1;
            proof {
                assert(out.deep_view() =~= spec_resolved(sel, groupsv).take(k as int));
            }
        }
        proof {
            assert(spec_resolved(sel, groupsv).take(sel.len() as int) =~= spec_resolved(
                sel,
                groupsv,
            ));
        }
        out
    }

    /// The content to persist: the selected groups' names, one per line.
    #[verifier::loop_isolation(false)]
    pub fn save_selected_log_groups(&self) -> (r: String)
        requires
            self.wf(),
        ensures
            r@ == spec_joined_names(
                spec_selected_names(
                    self.selected_log_groups@,
                    self.loaded_log_groups.deep_view(),
                ),
            ),
    {
        let ghost sel = self.selected_log_groups@;
        let ghost groupsv = self.loaded_log_groups.deep_view();
        let mut names: Vec<String> = Vec::new();
        let mut k: usize = 0;
        while k < self.selected_log_groups.len()
            invariant
                k <= sel.len(),
                names.deep_view() == spec_selected_names(sel, groupsv).take(k as int),
            decreases sel.len() - k,
        {
            let idx = self.selected_log_groups[k];
            let name = self.loaded_log_groups[idx].name.clone();
            names.push(name);
            k = k + 1;
            proof {
                assert(names.deep_view() =~= spec_selected_names(sel, groupsv).take(k as int));
            }
        }
        proof {
            assert(spec_selected_names(sel, groupsv).take(sel.len() as int) =~= spec_selected_names(
                sel,
                groupsv,
            ));
        }
        join_names(&names)
    }

    /// Restore a persisted selection against the loaded collection: a group
    /// whose name stands as a non-blank line of the content is selected, in
    /// index order, until the cap is reached; names without a match are
    /// dropped silently.
    #[verifier::loop_isolation(false)]
    pub fn load_selected_log_groups(&mut self, content: &str)
        requires
            old(self).wf(),
        ensures
            final(self).wf(),
            final(self).loaded_log_groups == old(self).loaded_log_groups,
            final(self).cursor == old(self).cursor,
            final(self).persisted == old(self).persisted,
            final(self).selected_log_groups@ == spec_restored(
                old(self).loaded_log_groups.deep_view(),
                spec_lines(content@),
                old(self).loaded_log_groups@.len() as int,
            ),
    {
        let ghost groupsv = self.loaded_log_groups.deep_view();
        let ghost linesv = spec_lines(content@);
        let lines = split_lines(content);
        let mut fresh: Vec<usize> = Vec::new();
        let mut idx: usize = 0;
        while idx < self.loaded_log_groups.len()
            invariant
                idx <= groupsv.len(),
                lines.deep_view() == linesv,
                self.loaded_log_groups.deep_view() == groupsv,
                fresh@ == spec_restored(groupsv, linesv, idx as int),
            decreases groupsv.len() - idx,
        {
            let name = &self.loaded_log_groups[idx].name;
            let mut matched = false;
            let mut j: usize = 0;
            while j < lines.len()
                invariant
                    j <= linesv.len(),
                    lines.deep_view() == linesv,
                    matched == exists|t: int|
                        0 <= t < j && linesv[t] == name@ && !spec_is_blank(linesv[t]),
                decreases linesv.len() - j,
            {
                proof {
                    assert(lines@[j as int]@ == linesv[j as int]);
                }
                if !is_blank(lines[j].as_str()) && lines[j] == *name {
                    matched = true;
                    proof {
                        assert(linesv[j as int] == name@ && !spec_is_blank(linesv[j as int]));
                    }
                }
                j = j + 1;
            }
            proof {
                assert(matched == spec_name_saved(linesv, groupsv[idx as int].name));
            }
            if matched && fresh.len() < MAX_SELECTED_GROUPS {
                fresh.push(idx);
            }
            idx = idx + 1;
        }
        self.selected_log_groups = fresh;
        proof {
            lemma_restored_props(groupsv, linesv, groupsv.len() as int);
        }
    }

    /// Handle a fresh group fetch: the loaded collection is replaced
    /// wholesale, the cursor is kept if it still lands in the collection (and
    /// reset otherwise), the persisted selection is restored against the new
    /// collection by name, and, if any name matched, the new selection is
    /// announced so the owning component can restart the live session. Every
    /// other action changes nothing.
    /// What one action does to the group list; the full contract of
    /// [`LogGroupList::update`].
    pub open spec fn spec_post_update(
        pre: LogGroupList,
        post: LogGroupList,
        action: &Action,
        acts: Seq<Action>,
    ) -> bool {
        &&& (action matches Action::ComponentAction(ComponentPayload::FetchLogGroups(f)) ==> {
            &&& post.loaded_log_groups == f.log_groups
            &&& post.persisted == pre.persisted
            &&& post.cursor == (if pre.cursor < f.log_groups@.len() {
                pre.cursor as int
            } else {
                0int
            })
            &&& post.selected_log_groups@ == spec_restored(
                f.log_groups.deep_view(),
                spec_lines(spec_persisted_content(&pre.persisted)),
                f.log_groups@.len() as int,
            )
            &&& spec_selection_update_announced(&post, acts)
        })
        &&& (!(action matches Action::ComponentAction(ComponentPayload::FetchLogGroups(_))) ==> (
        post == pre && acts.len() == 0))
    }

    pub fn update(&mut self, action: Action) -> (acts: Vec<Action>)
        requires
            old(self).wf(),
        ensures
            final(self).wf(),
            LogGroupList::spec_post_update(*old(self), *final(self), &action, acts@),
    {
        let mut acts: Vec<Action> = Vec::new();
        match action {
            Action::ComponentAction(ComponentPayload::FetchLogGroups(f)) => {
                if self.cursor >= f.log_groups.len() {
                    self.cursor = 0;
                }
                self.loaded_log_groups = f.log_groups;
                self.selected_log_groups = Vec::new();
                let has_content = self.persisted.is_some();
                if has_content {
                    let content = match &self.persisted {
                        Some(c) => c.as_str().to_owned(),
                        None => String::new(),
                    };
                    self.load_selected_log_groups(content.as_str());
                } else {
                    proof {
                        assert(self.selected_log_groups@ =~= spec_restored(
                            self.loaded_log_groups.deep_view(),
                            spec_lines(Seq::<char>::empty()),
                            self.loaded_log_groups@.len() as int,
                        )) by {
                            lemma_restored_empty(
                                self.loaded_log_groups.deep_view(),
                                spec_lines(Seq::<char>::empty()),
                                self.loaded_log_groups@.len() as int,
                            );
                        }
                    }
                }
                if self.selected_log_groups.len() > 0 {
                    let resolved = self.selected_groups();
                    acts.push(
                        Action::ComponentAction(
                            ComponentPayload::SelectLogGroup(SelectLogGroup { log_groups: resolved }),
                        ),
                    );
                }
                acts
            },
            _ => acts,
        }
    }

    /// Handle a logical key: `Up` and `Down` move the highlight within the
    /// loaded collection; `Toggle` toggles the selection of the highlighted
    /// group and, if the selection changed, asks for it to be persisted and
    /// announces the resolved group list (a toggle rejected by the cap does
    /// neither). Other keys are ignored.
    /// What one logical key does to the group list; the full contract of
    /// [`LogGroupList::handle_key_event`].
    pub open spec fn spec_post_handle_key(
        pre: LogGroupList,
        post: LogGroupList,
        key: KeyInput,
        acts: Seq<Action>,
        effs: Seq<Effect>,
    ) -> bool {
        &&& post.loaded_log_groups == pre.loaded_log_groups
        &&& post.persisted == pre.persisted
        &&& (key is Up ==> {
            &&& post.selected_log_groups == pre.selected_log_groups
            &&& post.cursor == (if pre.cursor > 0 {
                pre.cursor - 1
            } else {
                0int
            })
            &&& acts.len() == 0 && effs.len() == 0
        })
        &&& (key is Down ==> {
            &&& post.selected_log_groups == pre.selected_log_groups
            &&& post.cursor == (if pre.cursor + 1 < pre.loaded_log_groups@.len() {
                pre.cursor + 1
            } else {
                pre.cursor as int
            })
            &&& acts.len() == 0 && effs.len() == 0
        })
        &&& (key is Toggle ==> {
            &&& post.cursor == pre.cursor
            &&& (pre.loaded_log_groups@.len() == 0 ==> (post == pre && acts.len() == 0
                && effs.len() == 0))
            &&& (pre.loaded_log_groups@.len() > 0 ==> {
                &&& post.selected_log_groups@ == spec_toggle(
                    pre.selected_log_groups@,
                    pre.cursor,
                )
                &&& (spec_toggle_changes(pre.selected_log_groups@, pre.cursor)
                    ==> spec_toggle_announced(&post, acts, effs))
                &&& (!spec_toggle_changes(pre.selected_log_groups@, pre.cursor) ==> (acts.len()
                    == 0 && effs.len() == 0))
            })
        })
        &&& (!(key is Up || key is Down || key is Toggle) ==> (post == pre && acts.len() == 0
            && effs.len() == 0))
    }

    pub fn handle_key_event(&mut self, key: KeyInput) -> (r: (Vec<Action>, Vec<Effect>))
        requires
            old(self).wf(),
        ensures
            final(self).wf(),
            LogGroupList::spec_post_handle_key(*old(self), *final(self), key, r.0@, r.1@),
    {
        let mut acts: Vec<Action> = Vec::new();
        let mut effs: Vec<Effect> = Vec::new();
        match key {
            KeyInput::Up => {
                if self.cursor > 0 {
                    self.cursor = self.cursor - 1;
                }
            },
            KeyInput::Down => {
                let len = self.loaded_log_groups.len();
                if len > 0 && self.cursor < len - 1 {
                    self.cursor = self.cursor + 1;
                }
            },
            KeyInput::Toggle => {
                if self.loaded_log_groups.len() > 0 {
                    let changed = self.toggle(self.cursor);
                    if changed {
                        let content = self.save_selected_log_groups();
                        effs.push(Effect::PersistSelection(content));
                        let resolved = self.selected_groups();
                        acts.push(
                            Action::ComponentAction(
                                ComponentPayload::SelectLogGroup(
                                    SelectLogGroup { log_groups: resolved },
                                ),
                            ),
                        );
                    }
                }
            },
            _ => {},
        }
        (acts, effs)
    }
}

impl Default for LogGroupList {
    /// An empty component: no groups loaded, nothing selected, no persisted
    /// content known yet. The collection is populated by the first fetch.
    fn default() -> (r: Self)
        ensures
            r.wf(),
            r.loaded_log_groups@.len() == 0,
            r.cursor == 0,
            r.selected_log_groups@.len() == 0,
            r.persisted is None,
    {
        LogGroupList {
            loaded_log_groups: Vec::new(),
            cursor: 0,
            selected_log_groups: Vec::new(),
            persisted: None,
        }
    }
}

/// The persisted content this component knows: what was read from the
/// durable store, or nothing.
pub open spec fn spec_persisted_content(persisted: &Option<String>) -> Seq<char> {
    match persisted {
        Some(c) => c@,
        None => Seq::empty(),
    }
}

/// Whether a toggle of `v` changes the selection: it does unless `v` is
/// unselected and the cap is already reached.
pub open spec fn spec_toggle_changes(s: Seq<usize>, v: usize) -> bool {
    s.contains(v) || s.len() < MAX_SELECTED_GROUPS
}

/// After a selection change, exactly one persist request and one
/// announcement of the resolved selection leave the component.
pub open spec fn spec_toggle_announced(
    post: &LogGroupList,
    acts: Seq<Action>,
    effs: Seq<Effect>,
) -> bool {
    &&& effs.len() == 1
    &&& (effs[0] matches Effect::PersistSelection(c) && c@ == spec_joined_names(
        spec_selected_names(post.selected_log_groups@, post.loaded_log_groups.deep_view()),
    ))
    &&& acts.len() == 1
    &&& (acts[0] matches Action::ComponentAction(ComponentPayload::SelectLogGroup(p))
        && p.log_groups.deep_view() == spec_resolved(
        post.selected_log_groups@,
        post.loaded_log_groups.deep_view(),
    ))
}

/// After a fetch, the restored selection is announced exactly when it is
/// non-empty, carrying the resolved group list.
pub open spec fn spec_selection_update_announced(post: &LogGroupList, acts: Seq<Action>) -> bool {
    if post.selected_log_groups@.len() > 0 {
        acts.len() == 1 && (acts[0] matches Action::ComponentAction(
            ComponentPayload::SelectLogGroup(p),
        ) && p.log_groups.deep_view() == spec_resolved(
            post.selected_log_groups@,
            post.loaded_log_groups.deep_view(),
        ))
    } else {
        acts.len() == 0
    }
}

/// Sorted newest-first: creation times never increase along the sequence.
pub open spec fn spec_sorted_newest_first(groups: Seq<LogGroupView>) -> bool {
    forall|i: int, j: int|
        0 <= i < j < groups.len() ==> groups[i].creation_time >= groups[j].creation_time
}

/// Inserting an element anywhere adds exactly it to the multiset of a
/// sequence.
proof fn lemma_insert_to_multiset(s: Seq<LogGroupView>, p: int, x: LogGroupView)
    requires
        0 <= p <= s.len(),
    ensures
        s.insert(p, x).to_multiset() == s.to_multiset().insert(x),
{
    broadcast use vstd::seq_lib::group_seq_properties;

    assert(s.insert(p, x) =~= s.take(p).push(x) + s.skip(p));
    assert(s =~= s.take(p) + s.skip(p));
    lemma_multiset_commutative(s.take(p).push(x), s.skip(p));
    lemma_multiset_commutative(s.take(p), s.skip(p));
    s.take(p).to_multiset_ensures();
    assert(s.insert(p, x).to_multiset() =~= s.to_multiset().insert(x));
}

/// Sort a fetched collection newest-first by creation time; ties keep an
/// arbitrary order. The result holds exactly the fetched groups.
#[verifier::loop_isolation(false)]
pub fn sort_groups_newest_first(groups: Vec<LogGroup>) -> (r: Vec<LogGroup>)
    ensures
        spec_sorted_newest_first(r.deep_view()),
        r.deep_view().to_multiset() == groups.deep_view().to_multiset(),
        r@.len() == groups@.len(),
{
    let ghost groupsv = groups.deep_view();
    let mut out: Vec<LogGroup> = Vec::new();
    let mut i: usize = 0;
    proof {
        broadcast use vstd::seq_lib::group_seq_properties;

        assert(groupsv.take(0) =~= Seq::<LogGroupView>::empty());
        Seq::<LogGroupView>::empty().to_multiset_ensures();
        assert(out.deep_view() =~= Seq::<LogGroupView>::empty());
    }
    while i < groups.len()
        invariant
            i <= groupsv.len(),
            out@.len() == i,
            spec_sorted_newest_first(out.deep_view()),
            out.deep_view().to_multiset() == groupsv.take(i as int).to_multiset(),
        decreases groupsv.len() - i,
    {
        let g = groups[i].clone();
        let ghost gv = g@;
        let ghost outv = out.deep_view();
        let mut p: usize = 0;
        while p < out.len() && out[p].creation_time >= g.creation_time
            invariant
                p <= outv.len(),
                out.deep_view() == outv,
                forall|t: int| 0 <= t < p ==> outv[t].creation_time >= gv.creation_time,
            decreases outv.len() - p,
        {
            p = p + 1;
        }
        out.insert(p, g);
        proof {
            assert(out.deep_view() =~= outv.insert(p as int, gv));
            assert forall|a: int, b: int|
                0 <= a < b < out.deep_view().len() implies out.deep_view()[a].creation_time
                >= out.deep_view()[b].creation_time by {
                let s = outv.insert(p as int, gv);
                if a < p && b == p {
                } else if a == p && b > p {
                    assert(s[b] == outv[b - 1]);
                    assert(outv[p as int].creation_time < gv.creation_time);
                } else if a < p && b > p {
                    assert(s[a] == outv[a]);
                    assert(s[b] == outv[b - 1]);
                } else if a < p && b < p {
                    assert(s[a] == outv[a]);
                    assert(s[b] == outv[b]);
                } else if a > p && b > p {
                    assert(s[a] == outv[a - 1]);
                    assert(s[b] == outv[b - 1]);
                }
            }
            lemma_insert_to_multiset(outv, p as int, gv);
            assert(groupsv.take(i as int).push(groupsv[i as int]) =~= groupsv.take(i as int + 1));
            groupsv.take(i as int).to_multiset_ensures();
            assert(gv == groupsv[i as int]);
        }
        i = i + 1;
    }
    proof {
        assert(groupsv.take(groupsv.len() as int) =~= groupsv);
    }
    out
}

/// Restoring against no saved lines selects nothing.
proof fn lemma_restored_empty(groups: Seq<LogGroupView>, lines: Seq<Seq<char>>, k: int)
    requires
        lines.len() == 0,
    ensures
        spec_restored(groups, lines, k).len() == 0,
    decreases k,
{
    if k > 0 {
        lemma_restored_empty(groups, lines, k - 1);
    }
}

} // verus!
