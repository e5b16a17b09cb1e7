use quickjs_arbiter::arbiter::Arbiter;
use quickjs_arbiter::arbiter::EngineError;
use quickjs_arbiter::arbiter::TaskPayload;
use quickjs_arbiter::arbiter::TaskResult;

#[test]
fn thousand_tasks_from_ten_submitters_all_complete() {
    let mut arb = Arbiter::new();
    // Ten submitters, a hundred tasks each, arriving interleaved.
    for round in 0..100u64 {
        for submitter in 0..10u64 {
            let id = arb
                .submit_async(submitter, TaskPayload::NoOp)
                .expect("accepting arbiter takes the task");
            assert_eq!(id as u64, round * 10 + submitter);
        }
    }
    assert_eq!(arb.task_count(), 1000);
    assert_eq!(arb.executed_count(), 0);

    while arb.run_next() {}

    // The owning side processed exactly the thousand tasks, and every one
    // completed successfully.
    assert_eq!(arb.executed_count(), 1000);
    for id in 0..1000usize {
        match arb.take_result(id) {
            Some(TaskResult::Done(None)) => {}
            _ => panic!("task {} did not complete successfully", id),
        }
    }
    // A result is handed out only once.
    assert!(arb.take_result(0).is_none());
    assert!(arb.take_result(5000).is_none());
}

#[test]
fn execution_follows_submission_order() {
    let mut arb = Arbiter::new();
    // Fresh allocations get consecutive slots, so the handles coming back
    // expose the order in which the owning side ran the tasks.
    for submitter in 0..4u64 {
        arb.submit_async(submitter, TaskPayload::AllocValue)
            .expect("accepting arbiter takes the task");
    }
    while arb.run_next() {}
    for id in 0..4usize {
        match arb.take_result(id) {
            Some(TaskResult::Done(Some(h))) => {
                assert!(h.is_owning());
                assert_eq!(h.get_value().payload, 1 + id);
                assert_eq!(h.get_label(), "arbiter::alloc_value");
            }
            _ => panic!("allocation task {} did not deliver a handle", id),
        }
    }
}

#[test]
fn submit_sync_delivers_result_inline() {
    let mut arb = Arbiter::new();
    let r = arb.submit_sync(1, TaskPayload::NoOp).expect("no-op succeeds");
    assert!(r.is_none());
    let h = arb
        .submit_sync(1, TaskPayload::AllocValue)
        .expect("allocation succeeds")
        .expect("allocation delivers a handle");
    assert!(h.is_owning());
    assert_eq!(arb.engine_ref_count(h.get_value().payload), 1);
    assert_eq!(arb.executed_count(), 2);
}

#[test]
fn faulting_task_fails_alone_and_the_next_one_succeeds() {
    let mut arb = Arbiter::new();
    let r = arb.submit_sync(7, TaskPayload::Fault);
    match r {
        Err(EngineError::TaskFailed(e)) => {
            assert_eq!(e.get_message(), "task payload faulted");
        }
        _ => panic!("a faulting payload must come back as TaskFailed"),
    }
    // The owning side survived the fault: an unrelated task still executes
    // and succeeds.
    let r2 = arb.submit_sync(8, TaskPayload::NoOp).expect("arbiter still runs");
    assert!(r2.is_none());
    assert_eq!(arb.executed_count(), 2);
    assert!(arb.is_accepting());
}

#[test]
fn shutdown_then_submit_sync_reports_engine_unavailable() {
    let mut arb = Arbiter::new();
    arb.submit_async(1, TaskPayload::NoOp).expect("accepted before shutdown");
    arb.shutdown();
    // The documented policy: the backlog ran to completion first.
    assert_eq!(arb.executed_count(), 1);
    assert!(!arb.is_accepting());
    assert!(!arb.engine_is_alive());

    let r = arb.submit_sync(2, TaskPayload::NoOp);
    assert!(matches!(r, Err(EngineError::EngineUnavailable)));
    let r2 = arb.submit_async(2, TaskPayload::NoOp);
    assert!(matches!(r2, Err(EngineError::EngineUnavailable)));
    let r3 = arb.trigger_gc(2);
    assert!(matches!(r3, Err(EngineError::EngineUnavailable)));
}

#[test]
fn trigger_gc_bounds_memory_after_create_and_drop_cycles() {
    let mut arb = Arbiter::new();
    for i in 0..100u64 {
        let h = arb
            .submit_sync(i % 10, TaskPayload::AllocValue)
            .expect("allocation succeeds")
            .expect("allocation delivers a handle");
        arb.release_value_ref(h, i % 10).expect("release succeeds");
    }
    arb.trigger_gc(0).expect("collector runs");
    // Everything created was dropped: only the global object's slot remains.
    assert_eq!(arb.engine_allocated_slots(), 1);
    assert_eq!(arb.engine_ref_count(0), 1);
}

#[test]
fn cross_thread_release_is_routed_through_the_queue() {
    let mut arb = Arbiter::new();
    let h = arb
        .submit_sync(1, TaskPayload::AllocValue)
        .expect("allocation succeeds")
        .expect("allocation delivers a handle");
    let slot = h.get_value().payload;
    let dup = arb.submit_sync(2, TaskPayload::DupValue(slot)).expect("dup succeeds");
    assert!(dup.is_none());
    assert_eq!(arb.engine_ref_count(slot), 2);

    arb.release_value_ref(h, 1).expect("owning release succeeds");
    assert_eq!(arb.engine_ref_count(slot), 1);
    let r = arb.submit_sync(2, TaskPayload::ReleaseValue(slot)).expect("release succeeds");
    assert!(r.is_none());
    assert_eq!(arb.engine_ref_count(slot), 0);
}

#[test]
fn releasing_a_non_owning_handle_touches_nothing() {
    let mut arb = Arbiter::new();
    let executed_before = arb.executed_count();
    let h = quickjs_arbiter::quickjs_utils::new_undefined_ref();
    arb.release_value_ref(h, 3).expect("non-owning release is pure host work");
    assert_eq!(arb.executed_count(), executed_before);
    assert_eq!(arb.engine_allocated_slots(), 1);
}

#[test]
fn releasing_a_dead_slot_reports_task_failed() {
    let mut arb = Arbiter::new();
    let r = arb.submit_sync(1, TaskPayload::ReleaseValue(17));
    match r {
        Err(EngineError::TaskFailed(e)) => {
            assert_eq!(
                e.get_message(),
                "cannot give a reference back: not a live engine allocation"
            );
        }
        _ => panic!("releasing an unknown slot must fail the task"),
    }
    // The engine's own reference to the global object cannot be released.
    let r2 = arb.submit_sync(1, TaskPayload::ReleaseValue(0));
    assert!(matches!(r2, Err(EngineError::TaskFailed(_))));
    assert_eq!(arb.engine_ref_count(0), 1);
}

#[test]
fn duping_a_dead_slot_reports_task_failed() {
    let mut arb = Arbiter::new();
    let r = arb.submit_sync(1, TaskPayload::DupValue(17));
    match r {
        Err(EngineError::TaskFailed(e)) => {
            assert_eq!(
                e.get_message(),
                "cannot take a reference: not a live engine allocation"
            );
        }
        _ => panic!("duping an unknown slot must fail the task"),
    }
}

#[test]
fn owning_side_failure_fails_pending_and_future_tasks() {
    let mut arb = Arbiter::new();
    let done_id = arb.submit_async(1, TaskPayload::NoOp).expect("accepted");
    arb.run_next();
    let pending_id = arb.submit_async(1, TaskPayload::NoOp).expect("accepted");

    arb.mark_unavailable();
    assert!(!arb.is_accepting());
    assert!(!arb.engine_is_alive());
    // The executed task kept its result; the pending one was failed without
    // running.
    assert_eq!(arb.executed_count(), 1);
    assert!(matches!(arb.take_result(done_id), Some(TaskResult::Done(None))));
    assert!(matches!(
        arb.take_result(pending_id),
        Some(TaskResult::Fail(EngineError::EngineUnavailable))
    ));
    assert!(matches!(
        arb.submit_sync(1, TaskPayload::NoOp),
        Err(EngineError::EngineUnavailable)
    ));
}

#[test]
fn sync_submission_drains_the_async_backlog_first() {
    let mut arb = Arbiter::new();
    let queued = arb
        .submit_async(1, TaskPayload::AllocValue)
        .expect("accepting arbiter takes the task");
    // The synchronous caller is the owning side: its task runs inline, but
    // only after the earlier submission — fresh slots expose the order.
    let h = arb
        .submit_sync(2, TaskPayload::AllocValue)
        .expect("allocation succeeds")
        .expect("allocation delivers a handle");
    assert_eq!(h.get_value().payload, 2);
    match arb.take_result(queued) {
        Some(TaskResult::Done(Some(first))) => {
            assert_eq!(first.get_value().payload, 1);
        }
        _ => panic!("the earlier async task must have run first"),
    }
    assert_eq!(arb.executed_count(), 2);
}

#[test]
fn pending_results_cannot_be_collected_early() {
    let mut arb = Arbiter::new();
    let id = arb.submit_async(1, TaskPayload::NoOp).expect("accepted");
    assert!(!arb.poll(id));
    assert!(arb.take_result(id).is_none());
    assert!(arb.run_next());
    assert!(arb.poll(id));
    assert!(matches!(arb.take_result(id), Some(TaskResult::Done(None))));
    // Collected once, the position still reads as handled.
    assert!(arb.poll(id));
    assert!(!arb.poll(id + 1));
}
