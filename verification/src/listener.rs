//! Poll-merge loop: the cancellable long-poll listener. It turns an
//! offset-based fetch API into a single ordered stream of events. Each
//! iteration issues one fetch at the current cursor, advances the cursor
//! past every id the batch carried (parsed or not), drops records that
//! failed to parse from the output while still letting their raw id move
//! the cursor, and appends one synthetic event per subscription whenever
//! the daily trigger fired — always after that iteration's live events.
//! A cooperative stop flag turns the next iteration into a final
//! handshake fetch, after which the stream terminates.
//!
//! The fetch itself is a network round trip and stays with the caller:
//! the loop body is split into `begin_iteration`, which says what to
//! fetch, and `finish_iteration`, which consumes what came back.

use crate::settings::Subscribe;
use vstd::prelude::*;

verus! {

/// One unit of the output stream: a live event retrieved from the
/// transport, or a synthetic event manufactured for one subscription.
#[derive(Debug, Clone, Copy, PartialEq, Eq, Structural)]
pub enum Event {
    /// Retrieved from the transport; `id` drives the cursor.
    Live { id: i32, chat_id: i64 },
    /// Manufactured for a subscription; carries no id and never moves
    /// the cursor.
    Synthetic { chat_id: i64 },
}

/// The error-carrying unit emitted for an iteration whose fetch failed.
/// The transport's own error value stays with the caller.
#[derive(Debug, Clone, Copy, PartialEq, Eq, Structural)]
pub struct FetchError;

/// One record of a fetched batch, as the transport handed it over:
/// either fully parsed, or malformed with only its raw id recovered.
#[derive(Debug, Clone, Copy, PartialEq, Eq, Structural)]
pub enum RawEvent {
    /// A record that parsed; it reaches the output stream.
    Parsed { id: i32, chat_id: i64 },
    /// A record that did not parse. It is dropped from the output, but
    /// its raw id still advances the cursor.
    Malformed { update_id: i64 },
}

/// What one fetch round trip produced.
#[derive(Debug, Clone)]
pub enum FetchOutcome {
    /// The transport answered; the batch may mix parsed and malformed
    /// records and may be empty.
    Batch(Vec<RawEvent>),
    /// The round trip itself failed.
    Failed,
}

/// The cooperative stop signal the loop polls once per iteration.
/// Requesting a stop is idempotent and never rescinded.
#[derive(Debug, Clone, Copy, PartialEq, Eq, Structural)]
pub struct StopFlag {
    pub stopped: bool,
}

/// What a stop request leaves behind, whatever held before.
pub open spec fn spec_stop(f: StopFlag) -> StopFlag {
    StopFlag { stopped: true }
}

impl StopFlag {
    /// Has a stop been requested?
    pub open spec fn is_set(&self) -> bool {
        self.stopped
    }

    /// A fresh flag: no stop requested yet.
    pub fn new() -> (f: Self)
        ensures
            !f.is_set(),
    {
        StopFlag { stopped: false }
    }

    /// Request a stop. Idempotent: the result does not depend on how
    /// often it was requested before.
    pub fn request_stop(&mut self)
        ensures
            *final (self) == spec_stop(*old(self)),
    {
        self.stopped = true;
    }

    /// Cheap, non-blocking read of the flag.
    pub fn is_stopped(&self) -> (r: bool)
        ensures
            r == self.is_set(),
    {
        self.stopped
    }
}

/// Idempotent stop: requesting a stop twice leaves exactly the state
/// that one request leaves.
pub proof fn lemma_stop_idempotent(f: StopFlag)
    ensures
        spec_stop(spec_stop(f)) == spec_stop(f),
{
}

/// The loop's whole per-iteration state, held by exclusive ownership:
/// the cursor, the fetch configuration, and the stop flag.
#[derive(Debug, Clone)]
pub struct PollState {
    /// Cursor: every id below it counts as acknowledged; the next fetch
    /// asks for ids from here on.
    pub offset: i32,
    /// Long-poll timeout handed to every ordinary fetch, in seconds.
    pub timeout: Option<u32>,
    /// Batch-size hint handed to every ordinary fetch.
    pub limit: Option<u8>,
    /// Event categories to ask for. One-shot: taken by the first
    /// request built after it was set, and not refreshed.
    pub allowed_kinds: Option<Vec<u8>>,
    /// The cooperative stop signal.
    pub flag: StopFlag,
}

/// One fetch the loop asks its caller to perform.
#[derive(Debug, Clone)]
pub struct FetchRequest {
    pub offset: i32,
    pub timeout: Option<u32>,
    pub limit: Option<u8>,
    pub allowed_kinds: Option<Vec<u8>>,
    /// True for the one confirmation round trip after a stop request:
    /// a minimal fetch that only lets the transport flush and
    /// acknowledge the cursor.
    pub handshake: bool,
}

/// What one iteration hands the consumer, and whether the loop goes on.
#[derive(Debug, Clone)]
pub enum StepResult {
    /// The emitted chunk; the loop runs another iteration.
    Continue(Vec<Result<Event, FetchError>>),
    /// The emitted chunk (empty, or one final error); the stream ends.
    Terminate(Vec<Result<Event, FetchError>>),
}

impl StepResult {
    /// The chunk emitted by the iteration, in order.
    pub open spec fn items(&self) -> Seq<Result<Event, FetchError>> {
        match self {
            StepResult::Continue(v) => v@,
            StepResult::Terminate(v) => v@,
        }
    }

    /// Does the loop run another iteration?
    pub open spec fn continues(&self) -> bool {
        self is Continue
    }
}

/// The id a record advances the cursor with: the parsed id, or the raw
/// id recovered from a malformed record.
pub open spec fn raw_event_id(e: RawEvent) -> int {
    match e {
        RawEvent::Parsed { id, .. } => id as int,
        RawEvent::Malformed { update_id } => update_id as int,
    }
}

/// Every id of the batch fits the cursor: at least the smallest offset,
/// and small enough that one past it is still an offset.
pub open spec fn batch_ids_ok(b: Seq<RawEvent>) -> bool {
    forall|k: int| 0 <= k < b.len() ==> -0x8000_0000 <= #[trigger] raw_event_id(b[k]) < 0x7fff_ffff
}

/// The outcome's batch, if any, has cursor-sized ids.
pub open spec fn outcome_ok(o: FetchOutcome) -> bool {
    match o {
        FetchOutcome::Batch(b) => batch_ids_ok(b@),
        FetchOutcome::Failed => true,
    }
}

/// The largest id of a non-empty batch.
pub open spec fn max_raw_id(b: Seq<RawEvent>) -> int
    recommends
        b.len() > 0,
    decreases b.len(),
{
    if b.len() <= 1 {
        raw_event_id(b[0])
    } else {
        let rest = max_raw_id(b.drop_last());
        let last = raw_event_id(b.last());
        if last > rest {
            last
        } else {
            rest
        }
    }
}

/// The live events a batch contributes to the output: each parsed record
/// in batch order, with malformed records dropped.
pub open spec fn live_items(b: Seq<RawEvent>) -> Seq<Result<Event, FetchError>>
    decreases b.len(),
{
    if b.len() == 0 {
        Seq::empty()
    } else {
        let rest = live_items(b.drop_last());
        match b.last() {
            RawEvent::Parsed { id, chat_id } => rest.push(Ok(Event::Live { id, chat_id })),
            RawEvent::Malformed { .. } => rest,
        }
    }
}

/// The synthetic events one iteration manufactures: one per subscription,
/// in store order, addressed to the subscription's chat.
pub open spec fn synthetic_items(subs: Seq<Subscribe>) -> Seq<Result<Event, FetchError>> {
    Seq::new(subs.len(), |i: int| Ok(Event::Synthetic { chat_id: subs[i].chat_id }))
}

/// The chunk a successful running iteration emits: the batch's live
/// events, then — only if the trigger fired — the synthetic events.
pub open spec fn chunk_of(b: Seq<RawEvent>, subs: Seq<Subscribe>, fire: bool) -> Seq<
    Result<Event, FetchError>,
> {
    live_items(b) + if fire {
        synthetic_items(subs)
    } else {
        Seq::empty()
    }
}

/// Where one iteration leaves the cursor: a non-empty batch of a running
/// fetch moves it one past the largest id received; everything else —
/// an empty batch, a failed fetch, the stop handshake — leaves it alone.
pub open spec fn step_offset(offset: int, handshake: bool, outcome: FetchOutcome) -> int {
    match outcome {
        FetchOutcome::Batch(b) => if handshake || b@.len() == 0 {
            offset
        } else {
            max_raw_id(b@) + 1
        },
        FetchOutcome::Failed => offset,
    }
}

/// What one iteration emits: a running fetch emits its chunk, a failed
/// fetch one error unit, and a successful handshake nothing.
pub open spec fn step_items(
    handshake: bool,
    outcome: FetchOutcome,
    subs: Seq<Subscribe>,
    fire: bool,
) -> Seq<Result<Event, FetchError>> {
    match outcome {
        FetchOutcome::Batch(b) => if handshake {
            Seq::empty()
        } else {
            chunk_of(b@, subs, fire)
        },
        FetchOutcome::Failed => seq![Err(FetchError)],
    }
}

/// Build the loop state for a polling run that starts from cursor zero.
pub fn polling(timeout: Option<u32>, limit: Option<u8>, allowed_kinds: Option<Vec<u8>>) -> (s:
    PollState)
    ensures
        s.offset == 0,
        s.timeout == timeout,
        s.limit == limit,
        s.allowed_kinds == allowed_kinds,
        !s.flag.is_set(),
{
    PollState { offset: 0, timeout, limit, allowed_kinds, flag: StopFlag::new() }
}

/// The default listener configuration: a ten-second long poll, no batch
/// limit, no category filter.
pub fn polling_listener() -> (s: PollState)
    ensures
        s.offset == 0,
        s.timeout == Some(10u32),
        s.limit is None,
        s.allowed_kinds is None,
        !s.flag.is_set(),
{
    polling(Some(10), None, None)
}

impl PollState {
    /// Open one iteration: say what to fetch. An ordinary iteration asks
    /// at the cursor with the configured timeout and limit; once a stop
    /// was requested, the request is the minimal handshake — timeout
    /// zero, limit one, still at the cursor. The one-shot category
    /// filter is taken out of the state either way.
    pub fn begin_iteration(&mut self) -> (req: FetchRequest)
        ensures
            req.offset == old(self).offset,
            req.handshake == old(self).flag.is_set(),
            req.handshake ==> req.timeout == Some(0u32) && req.limit == Some(1u8),
            !req.handshake ==> req.timeout == old(self).timeout && req.limit == old(self).limit,
            req.allowed_kinds == old(self).allowed_kinds,
            final (self).allowed_kinds is None,
            final (self).offset == old(self).offset,
            final (self).timeout == old(self).timeout,
            final (self).limit == old(self).limit,
            final (self).flag == old(self).flag,
    {
        let kinds = self.allowed_kinds.take();
        if self.flag.is_stopped() {
            FetchRequest {
                offset: self.offset,
                timeout: Some(0),
                limit: Some(1),
                allowed_kinds: kinds,
                handshake: true,
            }
        } else {
            FetchRequest {
                offset: self.offset,
                timeout: self.timeout,
                limit: self.limit,
                allowed_kinds: kinds,
                handshake: false,
            }
        }
    }

    /// Close one iteration: consume what the fetch produced. The cursor
    /// moves exactly as `step_offset` says, the emitted chunk is exactly
    /// `step_items`, and the stream goes on exactly when the request was
    /// no handshake. Configuration and flag are untouched.
    pub fn finish_iteration(
        &mut self,
        req: &FetchRequest,
        outcome: FetchOutcome,
        subs: &Vec<Subscribe>,
        fire: bool,
    ) -> (r: StepResult)
        requires
            outcome_ok(outcome),
        ensures
            final (self).offset as int == step_offset(
                old(self).offset as int,
                req.handshake,
                outcome,
            ),
            r.items() == step_items(req.handshake, outcome, subs@, fire),
            r.continues() == !req.handshake,
            final (self).timeout == old(self).timeout,
            final (self).limit == old(self).limit,
            final (self).allowed_kinds == old(self).allowed_kinds,
            final (self).flag == old(self).flag,
    {
        match outcome {
            FetchOutcome::Failed => {
                let mut items: Vec<Result<Event, FetchError>> = Vec::new();
                items.push(Err(FetchError));
                proof {
                    assert(items@ =~= seq![Err::<Event, FetchError>(FetchError)]);
                }
                if req.handshake {
                    StepResult::Terminate(items)
                } else {
                    StepResult::Continue(items)
                }
            },
            FetchOutcome::Batch(batch) => {
                if req.handshake {
                    let empty: Vec<Result<Event, FetchError>> = Vec::new();
                    proof {
                        assert(empty@ =~= Seq::<Result<Event, FetchError>>::empty());
                    }
                    return StepResult::Terminate(empty);
                }
                let ghost bview = batch@;
                let n = batch.len();
                let mut items: Vec<Result<Event, FetchError>> = Vec::new();
                let mut max_so_far: i64 = 0;
                let mut i: usize = 0;
                while i < n
                    invariant
                        i <= n,
                        n == bview.len(),
                        batch@ == bview,
                        batch_ids_ok(bview),
                        items@ == live_items(bview.take(i as int)),
                        i > 0 ==> max_so_far as int == max_raw_id(bview.take(i as int)),
                        i > 0 ==> -0x8000_0000 <= max_so_far < 0x7fff_ffff,
                    decreases n - i,
                {
                    proof {
                        assert(bview.take(i as int + 1).drop_last() =~= bview.take(i as int));
                        assert(bview.take(i as int + 1).last() == bview[i as int]);
                        assert(raw_event_id(bview[i as int]) < 0x7fff_ffff);
                    }
                    let e = batch[i];
                    let id_now: i64 = match e {
                        RawEvent::Parsed { id, chat_id } => {
                            items.push(Ok(Event::Live { id, chat_id }));
                            id as i64
                        },
                        RawEvent::Malformed { update_id } => update_id,
                    };
                    if i == 0 || id_now > max_so_far {
                        max_so_far = id_now;
                    }
                    i = i + 1;
                }
                proof {
                    assert(bview.take(n as int) =~= bview);
                }
                if n > 0 {
                    self.offset = (max_so_far + 1) as i32;
                }
                if fire {
                    let m = subs.len();
                    let mut j: usize = 0;
                    while j < m
                        invariant
                            j <= m,
                            m == subs@.len(),
                            items@ == live_items(bview) + synthetic_items(subs@.take(j as int)),
                        decreases m - j,
                    {
                        items.push(Ok(Event::Synthetic { chat_id: subs[j].chat_id }));
                        proof {
                            assert(synthetic_items(subs@.take(j as int + 1)) =~= synthetic_items(
                                subs@.take(j as int),
                            ).push(Ok(Event::Synthetic { chat_id: subs@[j as int].chat_id })));
                        }
                        j = j + 1;
                    }
                    proof {
                        assert(subs@.take(m as int) =~= subs@);
                        assert(items@ =~= chunk_of(bview, subs@, true));
                    }
                } else {
                    proof {
                        assert(items@ =~= chunk_of(bview, subs@, false));
                    }
                }
                StepResult::Continue(items)
            },
        }
    }
}

} // verus!
