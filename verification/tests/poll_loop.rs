use yinchabot::listener::Event;
use yinchabot::listener::FetchError;
use yinchabot::listener::FetchOutcome;
use yinchabot::listener::RawEvent;
use yinchabot::listener::StepResult;
use yinchabot::listener::StopFlag;
use yinchabot::listener::polling;
use yinchabot::listener::polling_listener;
use yinchabot::settings::Subscribe;

fn open_step(r: StepResult) -> (Vec<Result<Event, FetchError>>, bool) {
    match r {
        StepResult::Continue(items) => (items, true),
        StepResult::Terminate(items) => (items, false),
    }
}

#[test]
fn listener_starts_at_offset_zero_with_ten_second_poll() {
    let mut st = polling_listener();
    let req = st.begin_iteration();
    assert_eq!(req.offset, 0);
    assert_eq!(req.timeout, Some(10));
    assert_eq!(req.limit, None);
    assert!(!req.handshake);
}

#[test]
fn cursor_advances_one_past_highest_id() {
    // fetch returns ids [5, 6, 7] at offset 0: the cursor becomes 8 and
    // the next fetch is issued with offset 8
    let mut st = polling_listener();
    let req = st.begin_iteration();
    assert_eq!(req.offset, 0);
    let batch = vec![
        RawEvent::Parsed { id: 5, chat_id: 1 },
        RawEvent::Parsed { id: 6, chat_id: 1 },
        RawEvent::Parsed { id: 7, chat_id: 1 },
    ];
    let subs: Vec<Subscribe> = Vec::new();
    let r = st.finish_iteration(&req, FetchOutcome::Batch(batch), &subs, false);
    assert_eq!(st.offset, 8);
    let (items, goes_on) = open_step(r);
    assert!(goes_on);
    assert_eq!(
        items,
        vec![
            Ok(Event::Live { id: 5, chat_id: 1 }),
            Ok(Event::Live { id: 6, chat_id: 1 }),
            Ok(Event::Live { id: 7, chat_id: 1 }),
        ]
    );
    let req2 = st.begin_iteration();
    assert_eq!(req2.offset, 8);
}

#[test]
fn empty_batch_leaves_cursor_alone() {
    let mut st = polling_listener();
    let req = st.begin_iteration();
    let subs: Vec<Subscribe> = Vec::new();
    let r = st.finish_iteration(&req, FetchOutcome::Batch(Vec::new()), &subs, false);
    assert_eq!(st.offset, 0);
    let (items, goes_on) = open_step(r);
    assert!(goes_on);
    assert!(items.is_empty());
}

#[test]
fn malformed_record_advances_cursor_but_is_dropped() {
    let mut st = polling_listener();
    let req = st.begin_iteration();
    let batch = vec![
        RawEvent::Parsed { id: 3, chat_id: 9 },
        RawEvent::Malformed { update_id: 4 },
    ];
    let subs: Vec<Subscribe> = Vec::new();
    let r = st.finish_iteration(&req, FetchOutcome::Batch(batch), &subs, false);
    assert_eq!(st.offset, 5);
    let (items, _) = open_step(r);
    assert_eq!(items, vec![Ok(Event::Live { id: 3, chat_id: 9 })]);
}

#[test]
fn failed_fetch_emits_one_error_and_continues() {
    let mut st = polling_listener();
    let req = st.begin_iteration();
    let subs: Vec<Subscribe> = Vec::new();
    let r = st.finish_iteration(&req, FetchOutcome::Failed, &subs, false);
    assert_eq!(st.offset, 0);
    let (items, goes_on) = open_step(r);
    assert!(goes_on);
    assert_eq!(items, vec![Err(FetchError)]);
}

#[test]
fn synthetic_events_follow_live_events() {
    // trigger fired with two subscriptions: all live events first, then
    // exactly one synthetic event per subscription, in store order
    let mut st = polling_listener();
    let req = st.begin_iteration();
    let batch = vec![
        RawEvent::Parsed { id: 1, chat_id: 50 },
        RawEvent::Parsed { id: 2, chat_id: 51 },
    ];
    let subs = vec![Subscribe::new(100), Subscribe::new(200)];
    let r = st.finish_iteration(&req, FetchOutcome::Batch(batch), &subs, true);
    let (items, _) = open_step(r);
    assert_eq!(
        items,
        vec![
            Ok(Event::Live { id: 1, chat_id: 50 }),
            Ok(Event::Live { id: 2, chat_id: 51 }),
            Ok(Event::Synthetic { chat_id: 100 }),
            Ok(Event::Synthetic { chat_id: 200 }),
        ]
    );
}

#[test]
fn no_synthetics_when_trigger_quiet() {
    let mut st = polling_listener();
    let req = st.begin_iteration();
    let batch = vec![RawEvent::Parsed { id: 1, chat_id: 50 }];
    let subs = vec![Subscribe::new(100)];
    let r = st.finish_iteration(&req, FetchOutcome::Batch(batch), &subs, false);
    let (items, _) = open_step(r);
    assert_eq!(items, vec![Ok(Event::Live { id: 1, chat_id: 50 })]);
}

#[test]
fn synthetics_never_advance_the_cursor() {
    let mut st = polling_listener();
    let req = st.begin_iteration();
    let subs = vec![Subscribe::new(100), Subscribe::new(200)];
    let r = st.finish_iteration(&req, FetchOutcome::Batch(Vec::new()), &subs, true);
    assert_eq!(st.offset, 0);
    let (items, _) = open_step(r);
    assert_eq!(
        items,
        vec![
            Ok(Event::Synthetic { chat_id: 100 }),
            Ok(Event::Synthetic { chat_id: 200 }),
        ]
    );
}

#[test]
fn no_live_id_is_delivered_twice_under_increasing_ids() {
    let mut st = polling_listener();
    let subs: Vec<Subscribe> = Vec::new();
    let mut seen: Vec<i32> = Vec::new();
    let script = vec![
        vec![RawEvent::Parsed { id: 5, chat_id: 1 }, RawEvent::Parsed { id: 6, chat_id: 1 }],
        vec![RawEvent::Malformed { update_id: 7 }],
        vec![RawEvent::Parsed { id: 8, chat_id: 1 }],
    ];
    for batch in script {
        let req = st.begin_iteration();
        let r = st.finish_iteration(&req, FetchOutcome::Batch(batch), &subs, false);
        let (items, _) = open_step(r);
        for it in items {
            if let Ok(Event::Live { id, .. }) = it {
                assert!(!seen.contains(&id));
                seen.push(id);
            }
        }
    }
    assert_eq!(seen, vec![5, 6, 8]);
}

#[test]
fn cursor_never_decreases_across_iterations() {
    let mut st = polling_listener();
    let subs: Vec<Subscribe> = Vec::new();
    let mut last = st.offset;
    let outcomes = vec![
        FetchOutcome::Batch(vec![RawEvent::Parsed { id: 2, chat_id: 1 }]),
        FetchOutcome::Failed,
        FetchOutcome::Batch(Vec::new()),
        FetchOutcome::Batch(vec![RawEvent::Parsed { id: 9, chat_id: 1 }]),
    ];
    for outcome in outcomes {
        let req = st.begin_iteration();
        let _ = st.finish_iteration(&req, outcome, &subs, false);
        assert!(st.offset >= last);
        last = st.offset;
    }
    assert_eq!(st.offset, 10);
}

#[test]
fn stop_turns_next_fetch_into_handshake_then_stream_ends() {
    // stop requested mid-run: the next iteration performs exactly one
    // more fetch with limit 1 and timeout 0, then the sequence ends
    let mut st = polling_listener();
    let req = st.begin_iteration();
    let subs: Vec<Subscribe> = Vec::new();
    let batch = vec![RawEvent::Parsed { id: 1, chat_id: 4 }];
    let _ = st.finish_iteration(&req, FetchOutcome::Batch(batch), &subs, false);
    st.flag.request_stop();
    let req2 = st.begin_iteration();
    assert!(req2.handshake);
    assert_eq!(req2.timeout, Some(0));
    assert_eq!(req2.limit, Some(1));
    assert_eq!(req2.offset, 2);
    let r = st.finish_iteration(&req2, FetchOutcome::Batch(Vec::new()), &subs, false);
    let (items, goes_on) = open_step(r);
    assert!(!goes_on);
    assert!(items.is_empty());
}

#[test]
fn failed_handshake_yields_one_final_error() {
    let mut st = polling_listener();
    st.flag.request_stop();
    let req = st.begin_iteration();
    let subs: Vec<Subscribe> = Vec::new();
    let r = st.finish_iteration(&req, FetchOutcome::Failed, &subs, false);
    let (items, goes_on) = open_step(r);
    assert!(!goes_on);
    assert_eq!(items, vec![Err(FetchError)]);
}

#[test]
fn requesting_stop_twice_equals_requesting_once() {
    let mut once = StopFlag::new();
    once.request_stop();
    let mut twice = StopFlag::new();
    twice.request_stop();
    twice.request_stop();
    assert_eq!(once, twice);
    assert!(twice.is_stopped());

    // and the loop's terminal behaviour is the same either way
    let mut st = polling_listener();
    st.flag.request_stop();
    st.flag.request_stop();
    let req = st.begin_iteration();
    assert!(req.handshake);
    let subs: Vec<Subscribe> = Vec::new();
    let r = st.finish_iteration(&req, FetchOutcome::Batch(Vec::new()), &subs, false);
    let (items, goes_on) = open_step(r);
    assert!(!goes_on);
    assert!(items.is_empty());
}

#[test]
fn category_filter_is_taken_by_the_first_request() {
    let mut st = polling(Some(10), Some(25), Some(vec![1, 2]));
    let req = st.begin_iteration();
    assert_eq!(req.allowed_kinds, Some(vec![1, 2]));
    assert_eq!(req.limit, Some(25));
    let subs: Vec<Subscribe> = Vec::new();
    let _ = st.finish_iteration(&req, FetchOutcome::Batch(Vec::new()), &subs, false);
    let req2 = st.begin_iteration();
    assert_eq!(req2.allowed_kinds, None);
}

#[test]
fn negative_ids_still_fit_the_cursor() {
    let mut st = polling_listener();
    let req = st.begin_iteration();
    let subs: Vec<Subscribe> = Vec::new();
    let batch = vec![RawEvent::Malformed { update_id: -5 }];
    let r = st.finish_iteration(&req, FetchOutcome::Batch(batch), &subs, false);
    assert_eq!(st.offset, -4);
    let (items, _) = open_step(r);
    assert!(items.is_empty());
}
