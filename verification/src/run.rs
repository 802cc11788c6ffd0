//! Whole-run laws of the poll-merge loop. A run is modelled as the fold
//! of the per-iteration step over a script: the sequence of fetch
//! outcomes the transport would produce. The laws proved here: the
//! cursor always sits one past the largest id seen so far and never
//! decreases; under a strictly increasing id source no live event is
//! delivered twice; and within one iteration every synthetic event
//! follows every live event.

use crate::listener::Event;
use crate::listener::FetchError;
use crate::listener::FetchOutcome;
use crate::listener::RawEvent;
use crate::listener::chunk_of;
use crate::listener::live_items;
use crate::listener::max_raw_id;
use crate::listener::raw_event_id;
use crate::listener::step_offset;
use crate::settings::Subscribe;
use vstd::prelude::*;

verus! {

/// The ids of one batch, in arrival order.
pub open spec fn ids_of(b: Seq<RawEvent>) -> Seq<int> {
    Seq::new(b.len(), |k: int| raw_event_id(b[k]))
}

/// The ids of the parsed records of one batch, in arrival order: the
/// ids the batch delivers to the consumer.
pub open spec fn live_ids(b: Seq<RawEvent>) -> Seq<int>
    decreases b.len(),
{
    if b.len() == 0 {
        Seq::empty()
    } else {
        let rest = live_ids(b.drop_last());
        match b.last() {
            RawEvent::Parsed { id, .. } => rest.push(id as int),
            RawEvent::Malformed { .. } => rest,
        }
    }
}

/// Every id the run has seen, over all successful fetches, in order.
pub open spec fn ids_seen(script: Seq<FetchOutcome>) -> Seq<int>
    decreases script.len(),
{
    if script.len() == 0 {
        Seq::empty()
    } else {
        ids_seen(script.drop_last()) + match script.last() {
            FetchOutcome::Batch(b) => ids_of(b@),
            FetchOutcome::Failed => Seq::empty(),
        }
    }
}

/// Every live id the run has delivered, in emission order.
pub open spec fn delivered_live_ids(script: Seq<FetchOutcome>) -> Seq<int>
    decreases script.len(),
{
    if script.len() == 0 {
        Seq::empty()
    } else {
        delivered_live_ids(script.drop_last()) + match script.last() {
            FetchOutcome::Batch(b) => live_ids(b@),
            FetchOutcome::Failed => Seq::empty(),
        }
    }
}

/// The cursor after running every iteration of the script, none of them
/// a handshake, starting from `start`.
pub open spec fn run_cursor(start: int, script: Seq<FetchOutcome>) -> int
    decreases script.len(),
{
    if script.len() == 0 {
        start
    } else {
        step_offset(run_cursor(start, script.drop_last()), false, script.last())
    }
}

/// The largest element of a non-empty sequence.
pub open spec fn seq_max(s: Seq<int>) -> int
    recommends
        s.len() > 0,
    decreases s.len(),
{
    if s.len() <= 1 {
        s[0]
    } else {
        let rest = seq_max(s.drop_last());
        if s.last() > rest {
            s.last()
        } else {
            rest
        }
    }
}

/// Each element is below the next.
pub open spec fn strictly_increasing(s: Seq<int>) -> bool {
    forall|p: int, q: int| 0 <= p < q < s.len() ==> s[p] < s[q]
}

/// Every id of the outcome's batch, if any, is at least `c`: what the
/// offset protocol promises of a fetch issued at cursor `c`.
pub open spec fn batch_at_or_after(o: FetchOutcome, c: int) -> bool {
    match o {
        FetchOutcome::Batch(b) => forall|k: int|
            0 <= k < b@.len() ==> #[trigger] raw_event_id(b@[k]) >= c,
        FetchOutcome::Failed => true,
    }
}

/// The script respects the offset protocol: each fetch answers at or
/// after the cursor it was issued at.
pub open spec fn respects_protocol(start: int, script: Seq<FetchOutcome>) -> bool {
    forall|i: int|
        0 <= i < script.len() ==> batch_at_or_after(
            #[trigger] script[i],
            run_cursor(start, script.take(i)),
        )
}

proof fn lemma_seq_max_bound(s: Seq<int>)
    requires
        s.len() > 0,
    ensures
        forall|k: int| 0 <= k < s.len() ==> #[trigger] s[k] <= seq_max(s),
        exists|k: int| 0 <= k < s.len() && s[k] == seq_max(s),
    decreases s.len(),
{
    if s.len() == 1 {
        assert(s[0] == seq_max(s));
    } else {
        lemma_seq_max_bound(s.drop_last());
        assert forall|k: int| 0 <= k < s.len() implies #[trigger] s[k] <= seq_max(s) by {
            if k < s.len() - 1 {
                assert(s.drop_last()[k] == s[k]);
            }
        }
        if s.last() > seq_max(s.drop_last()) {
            assert(s[s.len() - 1] == seq_max(s));
        } else {
            let w = choose|k: int| 0 <= k < s.len() - 1 && s.drop_last()[k] == seq_max(
                s.drop_last(),
            );
            assert(s[w] == seq_max(s));
        }
    }
}

proof fn lemma_seq_max_concat(s: Seq<int>, t: Seq<int>)
    requires
        s.len() > 0,
        t.len() > 0,
    ensures
        seq_max(s + t) == if seq_max(s) > seq_max(t) {
            seq_max(s)
        } else {
            seq_max(t)
        },
    decreases t.len(),
{
    if t.len() == 1 {
        assert((s + t).drop_last() =~= s);
        assert((s + t).last() == t[0]);
        assert(seq_max(t) == t[0]);
    } else {
        lemma_seq_max_concat(s, t.drop_last());
        assert((s + t).drop_last() =~= s + t.drop_last());
        assert((s + t).last() == t.last());
    }
}

proof fn lemma_max_raw_id_is_seq_max(b: Seq<RawEvent>)
    requires
        b.len() > 0,
    ensures
        max_raw_id(b) == seq_max(ids_of(b)),
    decreases b.len(),
{
    if b.len() == 1 {
        assert(ids_of(b)[0] == raw_event_id(b[0]));
    } else {
        lemma_max_raw_id_is_seq_max(b.drop_last());
        assert(ids_of(b).drop_last() =~= ids_of(b.drop_last()));
        assert(ids_of(b).last() == raw_event_id(b.last()));
    }
}

/// A prefix of a protocol-respecting script respects the protocol.
proof fn lemma_protocol_prefix(start: int, script: Seq<FetchOutcome>, i: int)
    requires
        respects_protocol(start, script),
        0 <= i <= script.len(),
    ensures
        respects_protocol(start, script.take(i)),
{
    assert forall|j: int| 0 <= j < i implies batch_at_or_after(
        #[trigger] script.take(i)[j],
        run_cursor(start, script.take(i).take(j)),
    ) by {
        assert(script.take(i).take(j) =~= script.take(j));
        assert(script.take(i)[j] == script[j]);
        assert(batch_at_or_after(script[j], run_cursor(start, script.take(j))));
    }
}

/// Cursor law, whole-run form: after a protocol-respecting run the
/// cursor is one past the largest id ever seen, or untouched when no id
/// was ever seen, and in particular never below its start.
pub proof fn lemma_cursor_is_one_past_max(start: int, script: Seq<FetchOutcome>)
    requires
        respects_protocol(start, script),
    ensures
        run_cursor(start, script) == if ids_seen(script).len() == 0 {
            start
        } else {
            seq_max(ids_seen(script)) + 1
        },
        run_cursor(start, script) >= start,
    decreases script.len(),
{
    if script.len() > 0 {
        lemma_protocol_prefix(start, script, script.len() - 1);
        assert(script.take(script.len() - 1) =~= script.drop_last());
        lemma_cursor_is_one_past_max(start, script.drop_last());
        let prev = run_cursor(start, script.drop_last());
        let prev_ids = ids_seen(script.drop_last());
        assert(batch_at_or_after(script.last(), prev)) by {
            assert(script[script.len() - 1] == script.last());
            assert(batch_at_or_after(
                script[script.len() - 1],
                run_cursor(start, script.take(script.len() - 1)),
            ));
        }
        match script.last() {
            FetchOutcome::Failed => {
                assert(ids_seen(script) =~= prev_ids);
            },
            FetchOutcome::Batch(b) => {
                if b@.len() == 0 {
                    assert(ids_of(b@) =~= Seq::<int>::empty());
                    assert(ids_seen(script) =~= prev_ids);
                } else {
                    lemma_max_raw_id_is_seq_max(b@);
                    lemma_seq_max_bound(ids_of(b@));
                    assert forall|k: int| 0 <= k < ids_of(b@).len() implies #[trigger] ids_of(b@)[k]
                        >= prev by {
                        assert(ids_of(b@)[k] == raw_event_id(b@[k]));
                        assert(raw_event_id(b@[k]) >= prev);
                    }
                    if prev_ids.len() == 0 {
                        assert(ids_seen(script) =~= ids_of(b@));
                        assert(seq_max(ids_of(b@)) >= ids_of(b@)[0]);
                    } else {
                        lemma_seq_max_concat(prev_ids, ids_of(b@));
                        assert(prev == seq_max(prev_ids) + 1);
                        let w = choose|k: int|
                            0 <= k < ids_of(b@).len() && ids_of(b@)[k] == seq_max(ids_of(b@));
                        assert(seq_max(ids_of(b@)) >= prev);
                        assert(ids_seen(script) == prev_ids + ids_of(b@));
                    }
                }
            },
        }
    }
}

/// Cursor law, per-iteration form: after each iteration of a
/// protocol-respecting run, the cursor is one past the largest id seen
/// so far across all iterations.
pub proof fn lemma_cursor_after_each_iteration(start: int, script: Seq<FetchOutcome>, i: int)
    requires
        respects_protocol(start, script),
        0 <= i <= script.len(),
    ensures
        run_cursor(start, script.take(i)) == if ids_seen(script.take(i)).len() == 0 {
            start
        } else {
            seq_max(ids_seen(script.take(i))) + 1
        },
{
    lemma_protocol_prefix(start, script, i);
    lemma_cursor_is_one_past_max(start, script.take(i));
}

/// Cursor law, monotonicity form: over a protocol-respecting run the
/// cursor never decreases.
pub proof fn lemma_cursor_never_decreases(start: int, script: Seq<FetchOutcome>, i: int, j: int)
    requires
        respects_protocol(start, script),
        0 <= i <= j <= script.len(),
    ensures
        run_cursor(start, script.take(i)) <= run_cursor(start, script.take(j)),
    decreases j - i,
{
    if i < j {
        lemma_cursor_never_decreases(start, script, i, j - 1);
        let prev = run_cursor(start, script.take(j - 1));
        assert(script.take(j).drop_last() =~= script.take(j - 1));
        assert(script.take(j).last() == script[j - 1]);
        assert(batch_at_or_after(script[j - 1], prev));
        match script[j - 1] {
            FetchOutcome::Failed => {},
            FetchOutcome::Batch(b) => {
                if b@.len() > 0 {
                    lemma_max_raw_id_is_seq_max(b@);
                    lemma_seq_max_bound(ids_of(b@));
                    assert(ids_of(b@)[0] == raw_event_id(b@[0]));
                    assert(raw_event_id(b@[0]) >= prev);
                }
            },
        }
    } else {
        assert(script.take(i) == script.take(j));
    }
}

/// The live ids of a batch are among its raw ids, and inherit their
/// strict order.
proof fn lemma_live_ids_of_batch(b: Seq<RawEvent>)
    ensures
        forall|p: int|
            0 <= p < live_ids(b).len() ==> ids_of(b).contains(#[trigger] live_ids(b)[p]),
        strictly_increasing(ids_of(b)) ==> strictly_increasing(live_ids(b)),
    decreases b.len(),
{
    if b.len() > 0 {
        lemma_live_ids_of_batch(b.drop_last());
        assert(ids_of(b.drop_last()) =~= ids_of(b).drop_last());
        assert forall|p: int|
            0 <= p < live_ids(b.drop_last()).len() implies ids_of(b).contains(
            #[trigger] live_ids(b.drop_last())[p],
        ) by {
            let k = choose|k: int|
                0 <= k < ids_of(b.drop_last()).len() && ids_of(b.drop_last())[k] == live_ids(
                    b.drop_last(),
                )[p];
            assert(ids_of(b)[k] == live_ids(b.drop_last())[p]);
        }
        if strictly_increasing(ids_of(b)) {
            assert(strictly_increasing(ids_of(b.drop_last()))) by {
                assert forall|p: int, q: int|
                    0 <= p < q < ids_of(b.drop_last()).len() implies ids_of(b.drop_last())[p]
                    < ids_of(b.drop_last())[q] by {
                    assert(ids_of(b)[p] < ids_of(b)[q]);
                }
            }
            match b.last() {
                RawEvent::Parsed { id, .. } => {
                    assert(ids_of(b).last() == raw_event_id(b.last()));
                    assert forall|p: int|
                        0 <= p < live_ids(b.drop_last()).len() implies live_ids(b.drop_last())[p]
                        < id as int by {
                        let k = choose|k: int|
                            0 <= k < ids_of(b.drop_last()).len() && ids_of(b.drop_last())[k]
                                == live_ids(b.drop_last())[p];
                        assert(ids_of(b)[k] == live_ids(b.drop_last())[p]);
                        assert(ids_of(b)[k] < ids_of(b)[b.len() - 1]);
                    }
                },
                RawEvent::Malformed { .. } => {},
            }
        }
    }
}

/// Across a run with strictly increasing ids, the delivered live ids
/// stay strictly increasing and are among the ids seen.
proof fn lemma_delivered_increasing(script: Seq<FetchOutcome>)
    requires
        strictly_increasing(ids_seen(script)),
    ensures
        strictly_increasing(delivered_live_ids(script)),
        forall|p: int|
            0 <= p < delivered_live_ids(script).len() ==> ids_seen(script).contains(
                #[trigger] delivered_live_ids(script)[p],
            ),
    decreases script.len(),
{
    if script.len() > 0 {
        let prev_ids = ids_seen(script.drop_last());
        let prev_del = delivered_live_ids(script.drop_last());
        let new_ids = match script.last() {
            FetchOutcome::Batch(b) => ids_of(b@),
            FetchOutcome::Failed => Seq::<int>::empty(),
        };
        let new_del = match script.last() {
            FetchOutcome::Batch(b) => live_ids(b@),
            FetchOutcome::Failed => Seq::<int>::empty(),
        };
        assert(ids_seen(script) == prev_ids + new_ids);
        assert(delivered_live_ids(script) == prev_del + new_del);
        assert(strictly_increasing(prev_ids)) by {
            assert forall|p: int, q: int| 0 <= p < q < prev_ids.len() implies prev_ids[p]
                < prev_ids[q] by {
                assert(ids_seen(script)[p] == prev_ids[p]);
                assert(ids_seen(script)[q] == prev_ids[q]);
            }
        }
        lemma_delivered_increasing(script.drop_last());
        match script.last() {
            FetchOutcome::Failed => {
                assert(delivered_live_ids(script) =~= prev_del);
                assert(ids_seen(script) =~= prev_ids);
            },
            FetchOutcome::Batch(b) => {
                assert(strictly_increasing(ids_of(b@))) by {
                    assert forall|p: int, q: int| 0 <= p < q < ids_of(b@).len() implies ids_of(b@)[p]
                        < ids_of(b@)[q] by {
                        assert(ids_seen(script)[prev_ids.len() + p] == ids_of(b@)[p]);
                        assert(ids_seen(script)[prev_ids.len() + q] == ids_of(b@)[q]);
                    }
                }
                lemma_live_ids_of_batch(b@);
                assert forall|p: int, q: int|
                    0 <= p < q < delivered_live_ids(script).len() implies delivered_live_ids(
                    script,
                )[p] < delivered_live_ids(script)[q] by {
                    let d = delivered_live_ids(script);
                    if q < prev_del.len() {
                        assert(d[p] == prev_del[p] && d[q] == prev_del[q]);
                    } else if p >= prev_del.len() {
                        assert(d[p] == new_del[p - prev_del.len()]);
                        assert(d[q] == new_del[q - prev_del.len()]);
                    } else {
                        assert(d[p] == prev_del[p]);
                        assert(d[q] == new_del[q - prev_del.len()]);
                        let w = choose|k: int|
                            0 <= k < prev_ids.len() && prev_ids[k] == prev_del[p];
                        let v = choose|k: int|
                            0 <= k < ids_of(b@).len() && ids_of(b@)[k] == new_del[q
                                - prev_del.len()];
                        assert(ids_seen(script)[w] == prev_ids[w]);
                        assert(ids_seen(script)[prev_ids.len() + v] == ids_of(b@)[v]);
                        assert(ids_seen(script)[w] < ids_seen(script)[prev_ids.len() + v]);
                    }
                }
                assert forall|p: int|
                    0 <= p < delivered_live_ids(script).len() implies ids_seen(script).contains(
                    #[trigger] delivered_live_ids(script)[p],
                ) by {
                    let d = delivered_live_ids(script);
                    if p < prev_del.len() {
                        let w = choose|k: int|
                            0 <= k < prev_ids.len() && prev_ids[k] == prev_del[p];
                        assert(ids_seen(script)[w] == d[p]);
                    } else {
                        let v = choose|k: int|
                            0 <= k < ids_of(b@).len() && ids_of(b@)[k] == new_del[p
                                - prev_del.len()];
                        assert(ids_seen(script)[prev_ids.len() + v] == d[p]);
                    }
                }
            },
        }
    }
}

/// No duplicate delivery: over any run whose id source is strictly
/// increasing, each live id reaches the output at most once.
pub proof fn lemma_no_duplicate_delivery(script: Seq<FetchOutcome>)
    requires
        strictly_increasing(ids_seen(script)),
    ensures
        strictly_increasing(delivered_live_ids(script)),
        forall|p: int, q: int|
            0 <= p < q < delivered_live_ids(script).len() ==> delivered_live_ids(script)[p]
                != delivered_live_ids(script)[q],
{
    lemma_delivered_increasing(script);
}

/// Each live item of a batch is the live event of the matching live id.
proof fn lemma_live_alignment(b: Seq<RawEvent>)
    ensures
        live_items(b).len() == live_ids(b).len(),
        forall|k: int|
            0 <= k < live_items(b).len() ==> (#[trigger] live_items(b)[k] matches Ok(
                Event::Live { id, .. },
            ) && id as int == live_ids(b)[k]),
    decreases b.len(),
{
    if b.len() > 0 {
        lemma_live_alignment(b.drop_last());
    }
}

/// Synthetic injection ordering: in an iteration where the trigger
/// fired, the chunk is all of the batch's live events — in their id
/// order, when the batch's ids ascend — followed by exactly one
/// synthetic event per subscription, in store order; no live event
/// stands after any synthetic one.
pub proof fn lemma_synthetic_injection_ordering(b: Seq<RawEvent>, subs: Seq<Subscribe>)
    ensures
        chunk_of(b, subs, true).len() == live_items(b).len() + subs.len(),
        forall|k: int|
            0 <= k < live_items(b).len() ==> #[trigger] chunk_of(b, subs, true)[k] matches Ok(
                Event::Live { .. },
            ),
        forall|j: int|
            0 <= j < subs.len() ==> chunk_of(b, subs, true)[live_items(b).len() + j] == Ok::<
                Event,
                FetchError,
            >(Event::Synthetic { chat_id: subs[j].chat_id }),
        strictly_increasing(ids_of(b)) ==> strictly_increasing(live_ids(b)),
{
    lemma_live_alignment(b);
    lemma_live_ids_of_batch(b);
    assert forall|k: int| 0 <= k < live_items(b).len() implies #[trigger] chunk_of(b, subs, true)[k]
        matches Ok(Event::Live { .. }) by {
        assert(chunk_of(b, subs, true)[k] == live_items(b)[k]);
        assert(live_items(b)[k] matches Ok(Event::Live { id, .. }) && id as int == live_ids(b)[k]);
    }
}

} // verus!
