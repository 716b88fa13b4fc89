//! The span lifecycle as transitions on the store of live records, and what
//! holds of every run of them.

use vstd::prelude::*;
use crate::attributes::{lemma_merged_twice, Pair};
use crate::ids::{SpanId, TraceId};
use crate::propagator::decoded;
use crate::span::SpanView;

verus! {

/// The live records, each under the key that the host gave its span.
pub type Store = Map<u64, SpanView>;

/// The record of the local parent: the one under the key `parent`, if the
/// host named a parent and its record is live.
pub open spec fn local_parent(store: Store, parent: Option<u64>) -> Option<SpanView> {
    match parent {
        Some(key) => if store.contains_key(key) {
            Some(store[key])
        } else {
            None
        },
        None => None,
    }
}

/// The record made for a span that starts. Under a local parent it copies
/// the parent's trace id and sampling decision and names the parent's span
/// id; without one it is a root, with the fresh trace id and the decision
/// made for that trace. Either way it has the span id and start time given,
/// and the initial attributes.
pub open spec fn new_span(
    store: Store,
    name: Seq<char>,
    updates: Seq<Pair>,
    parent: Option<u64>,
    fresh_trace: TraceId,
    span_id: SpanId,
    root_decision: bool,
    time: u128,
) -> SpanView {
    match local_parent(store, parent) {
        Some(p) => SpanView::started(
            name,
            p.trace_id,
            span_id,
            Some(p.span_id),
            time,
            p.is_recording,
        ),
        None => SpanView::started(name, fresh_trace, span_id, None, time, root_decision),
    }.recorded(updates)
}

/// The store after the span `id` has started.
pub open spec fn started(
    store: Store,
    id: u64,
    name: Seq<char>,
    updates: Seq<Pair>,
    parent: Option<u64>,
    fresh_trace: TraceId,
    span_id: SpanId,
    root_decision: bool,
    time: u128,
) -> Store {
    store.insert(
        id,
        new_span(store, name, updates, parent, fresh_trace, span_id, root_decision, time),
    )
}

/// The store after `updates` were recorded on the span `id`: nothing
/// changes where no record is live under `id`.
pub open spec fn recorded(store: Store, id: u64, updates: Seq<Pair>) -> Store {
    if store.contains_key(id) {
        store.insert(id, store[id].recorded(updates))
    } else {
        store
    }
}

/// The store after the span `id` was closed.
pub open spec fn closed(store: Store, id: u64) -> Store {
    store.remove(id)
}

/// The store after the span `id` was given the remote parent of `header`:
/// nothing changes where no record is live under `id`.
pub open spec fn remote_parented(store: Store, id: u64, header: Seq<char>) -> Store {
    if store.contains_key(id) {
        store.insert(id, store[id].with_remote_parent(header))
    } else {
        store
    }
}

/// One callback of the host, with the values that chance and the clock
/// contributed to it.
pub enum Step {
    Start {
        id: u64,
        name: Seq<char>,
        updates: Seq<Pair>,
        parent: Option<u64>,
        fresh_trace: TraceId,
        span_id: SpanId,
        root_decision: bool,
        time: u128,
    },
    Record { id: u64, updates: Seq<Pair> },
    Close { id: u64 },
    RemoteParent { id: u64, header: Seq<char> },
}

/// The store after one step.
pub open spec fn after(store: Store, step: Step) -> Store {
    match step {
        Step::Start { id, name, updates, parent, fresh_trace, span_id, root_decision, time } =>
            started(store, id, name, updates, parent, fresh_trace, span_id, root_decision, time),
        Step::Record { id, updates } => recorded(store, id, updates),
        Step::Close { id } => closed(store, id),
        Step::RemoteParent { id, header } => remote_parented(store, id, header),
    }
}

/// The store after a run of steps.
pub open spec fn run(store: Store, steps: Seq<Step>) -> Store
    decreases steps.len(),
{
    if steps.len() == 0 {
        store
    } else {
        after(run(store, steps.drop_last()), steps.last())
    }
}

/// The keys of the live spans that descend from `root` after a run of steps
/// that began with `root` live: `root` itself, and each span started under a
/// live local parent that is in the family. A key leaves the family when its
/// span is closed, and when the host uses the key anew for a span outside.
pub open spec fn family(store: Store, root: u64, steps: Seq<Step>) -> Set<u64>
    decreases steps.len(),
{
    if steps.len() == 0 {
        set![root]
    } else {
        let before = family(store, root, steps.drop_last());
        let live = run(store, steps.drop_last());
        match steps.last() {
            Step::Start { id, parent, .. } => match parent {
                Some(p) => if before.contains(p) && live.contains_key(p) {
                    before.insert(id)
                } else {
                    before.remove(id)
                },
                None => before.remove(id),
            },
            Step::Close { id } => before.remove(id),
            _ => before,
        }
    }
}

/// No step of the run gives a remote parent to a span that is in the family
/// of `root` at that moment.
pub open spec fn family_untouched(store: Store, root: u64, steps: Seq<Step>) -> bool {
    forall|i: int|
        0 <= i < steps.len() ==> (#[trigger] steps[i] matches Step::RemoteParent { id, .. }
            ==> !family(store, root, steps.take(i)).contains(id))
}

/// A span started under a live local parent belongs to the parent's trace:
/// it has the parent's trace id and sampling decision, and names the
/// parent's span id as its parent.
pub proof fn lemma_child_inherits(
    store: Store,
    name: Seq<char>,
    updates: Seq<Pair>,
    parent: u64,
    fresh_trace: TraceId,
    span_id: SpanId,
    root_decision: bool,
    time: u128,
)
    requires
        store.contains_key(parent),
    ensures
        ({
            let child = new_span(
                store,
                name,
                updates,
                Some(parent),
                fresh_trace,
                span_id,
                root_decision,
                time,
            );
            &&& child.trace_id == store[parent].trace_id
            &&& child.parent_span_id == Some(store[parent].span_id)
            &&& child.is_recording == store[parent].is_recording
        }),
{
}

/// A span started without a live local parent is a root: it has no parent,
/// the fresh trace id, and the decision made for that trace.
pub proof fn lemma_root_takes_decision(
    store: Store,
    name: Seq<char>,
    updates: Seq<Pair>,
    parent: Option<u64>,
    fresh_trace: TraceId,
    span_id: SpanId,
    root_decision: bool,
    time: u128,
)
    requires
        local_parent(store, parent) is None,
    ensures
        ({
            let root = new_span(
                store,
                name,
                updates,
                parent,
                fresh_trace,
                span_id,
                root_decision,
                time,
            );
            &&& root.trace_id == fresh_trace
            &&& root.parent_span_id is None
            &&& root.is_recording == root_decision
        }),
{
}

/// Recording the same values on a span a second time changes nothing.
pub proof fn lemma_record_twice(store: Store, id: u64, updates: Seq<Pair>)
    ensures
        recorded(recorded(store, id, updates), id, updates) == recorded(store, id, updates),
{
    if store.contains_key(id) {
        lemma_merged_twice(store[id].attributes, updates);
        assert(recorded(recorded(store, id, updates), id, updates) =~= recorded(
            store,
            id,
            updates,
        ));
    }
}

/// Closing a span leaves every other record as it was: a child keeps the
/// identity it copied from a parent that is closed before it.
pub proof fn lemma_close_keeps_others(store: Store, id: u64, other: u64)
    requires
        store.contains_key(other),
        other != id,
    ensures
        closed(store, id).contains_key(other),
        closed(store, id)[other] == store[other],
{
}

/// No record in the store has an end time.
pub open spec fn all_open(store: Store) -> bool {
    forall|key: u64| store.contains_key(key) ==> (#[trigger] store[key]).end_time is None
}

/// A live span is an open span: if no record has an end time at the outset,
/// none has one after any run of steps. The end time is stamped on the
/// record that leaves the store, never on one that stays.
pub proof fn lemma_live_spans_are_open(store: Store, steps: Seq<Step>)
    requires
        all_open(store),
    ensures
        all_open(run(store, steps)),
    decreases steps.len(),
{
    if steps.len() > 0 {
        let live = run(store, steps.drop_last());
        lemma_live_spans_are_open(store, steps.drop_last());
        assert forall|key: u64| run(store, steps).contains_key(key) implies (#[trigger] run(
            store,
            steps,
        )[key]).end_time is None by {
            if live.contains_key(key) {
                assert(live[key].end_time is None);
            }
        }
    }
}

/// A step leaves the identity of every other live span alone: but for a key
/// that is started anew, a record that is live before and after the step
/// keeps its name, span id, start time and sampling decision; and it keeps
/// its trace id and parent unless the step gives it a remote parent.
pub proof fn lemma_step_keeps_identity(store: Store, step: Step, key: u64)
    requires
        store.contains_key(key),
        after(store, step).contains_key(key),
        !(step matches Step::Start { id, .. } && id == key),
    ensures
        after(store, step)[key].name == store[key].name,
        after(store, step)[key].span_id == store[key].span_id,
        after(store, step)[key].start_time == store[key].start_time,
        after(store, step)[key].is_recording == store[key].is_recording,
        !(step matches Step::RemoteParent { id, .. } && id == key) ==> {
            &&& after(store, step)[key].trace_id == store[key].trace_id
            &&& after(store, step)[key].parent_span_id == store[key].parent_span_id
        },
{
}

/// One sampling decision holds for a whole family: whatever steps follow,
/// every live span that descends from `root` has the decision that `root`
/// had at the outset.
pub proof fn lemma_family_shares_decision(store: Store, root: u64, steps: Seq<Step>)
    requires
        store.contains_key(root),
    ensures
        forall|k: u64|
            family(store, root, steps).contains(k) && run(store, steps).contains_key(k)
                ==> #[trigger] run(store, steps)[k].is_recording == store[root].is_recording,
    decreases steps.len(),
{
    if steps.len() > 0 {
        let front = steps.drop_last();
        let live = run(store, front);
        lemma_family_shares_decision(store, root, front);
        assert forall|k: u64|
            family(store, root, steps).contains(k) && run(store, steps).contains_key(
                k,
            ) implies #[trigger] run(store, steps)[k].is_recording
            == store[root].is_recording by {
            match steps.last() {
                Step::Start { id, parent, .. } => {
                    if k == id {
                        assert(live[parent->0].is_recording == store[root].is_recording);
                    } else {
                        assert(live[k].is_recording == store[root].is_recording);
                    }
                },
                _ => {
                    assert(live[k].is_recording == store[root].is_recording);
                },
            }
        }
    }
}

/// Within one step, a record that stays in the family keeps its trace id,
/// and a record that joins the family takes the trace id of a member.
proof fn lemma_family_step(store: Store, root: u64, steps: Seq<Step>, trace_id: TraceId)
    requires
        steps.len() > 0,
        family_untouched(store, root, steps),
        forall|k: u64|
            family(store, root, steps.drop_last()).contains(k) && run(
                store,
                steps.drop_last(),
            ).contains_key(k) ==> #[trigger] run(store, steps.drop_last())[k].trace_id == trace_id,
    ensures
        forall|k: u64|
            family(store, root, steps).contains(k) && run(store, steps).contains_key(k)
                ==> #[trigger] run(store, steps)[k].trace_id == trace_id,
{
    let front = steps.drop_last();
    let before = family(store, root, front);
    let live = run(store, front);
    assert(steps.take(steps.len() - 1) =~= front);
    assert forall|k: u64|
        family(store, root, steps).contains(k) && run(store, steps).contains_key(
            k,
        ) implies #[trigger] run(store, steps)[k].trace_id == trace_id by {
        match steps.last() {
            Step::Start { id, parent, .. } => {
                if k == id {
                    let p = parent->0;
                    assert(live[p].trace_id == trace_id);
                } else {
                    assert(live[k].trace_id == trace_id);
                }
            },
            Step::Record { id, .. } => {
                assert(live[k].trace_id == trace_id);
            },
            Step::Close { id } => {
                assert(live[k].trace_id == trace_id);
            },
            Step::RemoteParent { id, .. } => {
                assert(steps[steps.len() - 1] is RemoteParent);
                assert(!before.contains(id));
                assert(live[k].trace_id == trace_id);
            },
        }
    }
}

/// Whatever steps follow, as long as none gives a family member a remote
/// parent, every live member of the family of `root` has the trace id that
/// `root` had at the outset.
pub proof fn lemma_family_shares_trace(store: Store, root: u64, steps: Seq<Step>)
    requires
        store.contains_key(root),
        family_untouched(store, root, steps),
    ensures
        forall|k: u64|
            family(store, root, steps).contains(k) && run(store, steps).contains_key(k)
                ==> #[trigger] run(store, steps)[k].trace_id == store[root].trace_id,
    decreases steps.len(),
{
    if steps.len() > 0 {
        let front = steps.drop_last();
        assert(family_untouched(store, root, front)) by {
            assert forall|i: int| 0 <= i < front.len() implies (#[trigger] front[i] matches Step::RemoteParent {
                id,
                ..
            } ==> !family(store, root, front.take(i)).contains(id)) by {
                assert(front[i] == steps[i]);
                assert(front.take(i) =~= steps.take(i));
            }
        }
        lemma_family_shares_trace(store, root, front);
        lemma_family_step(store, root, steps, store[root].trace_id);
    }
}

/// A remote parent given to a span before its children are started reaches
/// all its descendants: after any run of steps that follows, every live span
/// of the family has the trace id that the header injected.
pub proof fn lemma_remote_parent_reaches_descendants(
    store: Store,
    root: u64,
    header: Seq<char>,
    steps: Seq<Step>,
    descendant: u64,
)
    requires
        store.contains_key(root),
        family_untouched(remote_parented(store, root, header), root, steps),
        family(remote_parented(store, root, header), root, steps).contains(descendant),
        run(remote_parented(store, root, header), steps).contains_key(descendant),
    ensures
        run(remote_parented(store, root, header), steps)[descendant].trace_id == decoded(
            header,
        ).0,
{
    lemma_family_shares_trace(remote_parented(store, root, header), root, steps);
}

} // verus!
