use tg_ws_proxy::lifecycle::{
    after_bind, begin_stop, finish_start, listen_address, listen_failure, start_steps, stop_steps,
    watch_is_over, BindResult, Running, StartDecision, StartStep, StopStep, TaskStatus,
};

#[test]
fn addresses() {
    assert_eq!(listen_address("127.0.0.1", 1443), "127.0.0.1:1443");
    assert_eq!(listen_address("", 0), ":0");
    assert_eq!(listen_failure("h:1", "in use"), "listen on h:1: in use");
}

#[test]
fn start_in_order() {
    let steps = start_steps("h", 80, true, false);
    assert_eq!(steps.len(), 7);
    assert!(matches!(steps[0], StartStep::InitLogging(true, false)));
    assert!(matches!(steps[1], StartStep::ClearCooldowns));
    assert!(matches!(steps[2], StartStep::InitDomains));
    assert!(matches!(steps[3], StartStep::ReadDcMap));
    match &steps[4] {
        StartStep::SpawnProxy(address) => assert_eq!(address, "h:80"),
        other => panic!("{:?}", other),
    }
    assert!(matches!(steps[5], StartStep::SpawnSummary));
    assert!(matches!(steps[6], StartStep::AwaitBind));
}

#[test]
fn quiet_start_has_no_summary() {
    let steps = start_steps("h", 80, false, true);
    assert_eq!(steps.len(), 6);
    assert!(matches!(steps[0], StartStep::InitLogging(false, true)));
    assert!(matches!(steps[5], StartStep::AwaitBind));
}

#[test]
fn bind_decides() {
    assert_eq!(after_bind(BindResult::Listening, false), StartDecision::Keep);
    assert_eq!(after_bind(BindResult::Listening, true), StartDecision::LeaveOther);
    for other in [false, true] {
        assert_eq!(after_bind(BindResult::Refused, other), StartDecision::Abort);
        assert_eq!(after_bind(BindResult::Lost, other), StartDecision::Abort);
    }
}

#[test]
fn watch_ends_with_the_tasks() {
    let status = |proxy_finished, summary_finished| {
        watch_is_over(Some(TaskStatus { proxy_finished, summary_finished }))
    };
    assert!(watch_is_over(None));
    assert!(status(true, None));
    assert!(status(true, Some(true)));
    assert!(!status(true, Some(false)));
    assert!(!status(false, None));
    assert!(!status(false, Some(true)));
}

#[test]
fn stop_in_order() {
    assert_eq!(stop_steps(None), vec![]);
    let forget = [
        StopStep::ClosePool,
        StopStep::ResetStats,
        StopStep::ClearBlacklist,
        StopStep::ClearDcFailures,
        StopStep::ClearCooldowns,
    ];
    let mut plain = vec![StopStep::CancelTasks, StopStep::AwaitProxy];
    plain.extend_from_slice(&forget);
    assert_eq!(stop_steps(Some(false)), plain);
    let mut verbose = vec![StopStep::CancelTasks, StopStep::AwaitProxy, StopStep::AbortSummary];
    verbose.extend_from_slice(&forget);
    assert_eq!(stop_steps(Some(true)), verbose);
}

fn proxy(tasks: u32) -> Running<u32> {
    Running { tasks, has_summary: true }
}

#[test]
fn record_keeps_the_first_that_listens() {
    let mut record = None;
    for result in [BindResult::Refused, BindResult::Lost] {
        let (decision, back) = finish_start(&mut record, result, proxy(1));
        assert_eq!(decision, StartDecision::Abort);
        assert_eq!(back.unwrap().tasks, 1);
        assert!(record.is_none());
    }
    let (decision, back) = finish_start(&mut record, BindResult::Listening, proxy(2));
    assert_eq!(decision, StartDecision::Keep);
    assert!(back.is_none());
    for (result, expected) in [
        (BindResult::Listening, StartDecision::LeaveOther),
        (BindResult::Refused, StartDecision::Abort),
    ] {
        let (decision, back) = finish_start(&mut record, result, proxy(3));
        assert_eq!(decision, expected);
        assert_eq!(back.unwrap().tasks, 3);
        assert_eq!(record.as_ref().unwrap().tasks, 2);
    }
}

#[test]
fn second_stop_does_nothing() {
    let mut record = Some(proxy(7));
    let (stopped, steps) = begin_stop(&mut record);
    assert_eq!(stopped.unwrap().tasks, 7);
    assert_eq!(steps, stop_steps(Some(true)));
    assert!(record.is_none());
    let (stopped, steps) = begin_stop(&mut record);
    assert!(stopped.is_none());
    assert_eq!(steps, vec![]);
    assert!(record.is_none());
    let mut quiet = Some(Running { tasks: (), has_summary: false });
    assert_eq!(begin_stop(&mut quiet).1, stop_steps(Some(false)));
}
