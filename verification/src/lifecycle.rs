//! Starting, watching and stopping the proxy: the order of the steps and the decisions
//! between them.

use vstd::prelude::*;
use vstd::string::StringExecFns;

#[allow(unused_imports)]
use crate::text::{
    decimal, law_decimal_has_no_leading_zero, law_decimal_reads_back, push_decimal, u16_in,
};

verus! {

/// Seconds between two summaries in the log.
pub const SUMMARY_INTERVAL_SECS: u64 = 60;

/// Milliseconds between two looks at the proxy's tasks.
pub const WATCH_INTERVAL_MILLIS: u64 = 50;

/// Seconds that the proxy's task gets to finish when it is stopped.
pub const STOP_TIMEOUT_SECS: u64 = 2;

/// `host:port`.
pub open spec fn address_of(host: Seq<char>, port: u16) -> Seq<char> {
    host + ":"@ + decimal(port as nat)
}

/// The address to listen on.
pub fn listen_address(host: &str, port: u16) -> (address: String)
    ensures
        address@ == address_of(host@, port),
{
    let mut address = host.to_string();
    address.append(":");
    push_decimal(&mut address, port);
    address
}

/// What is logged when an address cannot be listened on.
pub fn listen_failure(address: &str, reason: &str) -> (message: String)
    ensures
        message@ == "listen on "@ + address@ + ": "@ + reason@,
{
    let mut message = "listen on ".to_string();
    message.append(address);
    message.append(": ");
    message.append(reason);
    message
}

/// One step of the start.
#[derive(Debug)]
pub enum StartStep {
    /// Set the log up: whether in detail, and whether to the console.
    InitLogging(bool, bool),
    /// Forget which Cloudflare domains asked to be left alone.
    ClearCooldowns,
    /// Load the Cloudflare domains.
    InitDomains,
    /// Read the data-centre addresses.
    ReadDcMap,
    /// Start the task that listens on this address and runs the proxy.
    SpawnProxy(String),
    /// Start the task that logs a summary every [`SUMMARY_INTERVAL_SECS`].
    SpawnSummary,
    /// Wait until the proxy listens or cannot.
    AwaitBind,
}

/// [`StartStep`] over character sequences.
pub enum StartStepView {
    InitLogging(bool, bool),
    ClearCooldowns,
    InitDomains,
    ReadDcMap,
    SpawnProxy(Seq<char>),
    SpawnSummary,
    AwaitBind,
}

impl View for StartStep {
    type V = StartStepView;

    open spec fn view(&self) -> StartStepView {
        match self {
            StartStep::InitLogging(verbose, console) => StartStepView::InitLogging(
                *verbose,
                *console,
            ),
            StartStep::ClearCooldowns => StartStepView::ClearCooldowns,
            StartStep::InitDomains => StartStepView::InitDomains,
            StartStep::ReadDcMap => StartStepView::ReadDcMap,
            StartStep::SpawnProxy(address) => StartStepView::SpawnProxy(address@),
            StartStep::SpawnSummary => StartStepView::SpawnSummary,
            StartStep::AwaitBind => StartStepView::AwaitBind,
        }
    }
}

/// The views of a run of steps.
pub open spec fn start_views(steps: Seq<StartStep>) -> Seq<StartStepView> {
    Seq::new(steps.len(), |i: int| steps[i]@)
}

/// The steps of the start, in order. Only a verbose proxy logs summaries.
pub open spec fn start_plan(host: Seq<char>, port: u16, verbose: bool, console: bool) -> Seq<
    StartStepView,
> {
    seq![
        StartStepView::InitLogging(verbose, console),
        StartStepView::ClearCooldowns,
        StartStepView::InitDomains,
        StartStepView::ReadDcMap,
        StartStepView::SpawnProxy(address_of(host, port)),
    ] + (if verbose {
        seq![StartStepView::SpawnSummary, StartStepView::AwaitBind]
    } else {
        seq![StartStepView::AwaitBind]
    })
}

/// The steps of the start.
pub fn start_steps(host: &str, port: u16, verbose: bool, console: bool) -> (steps: Vec<StartStep>)
    ensures
        start_views(steps@) == start_plan(host@, port, verbose, console),
{
    let mut steps: Vec<StartStep> = Vec::new();
    steps.push(StartStep::InitLogging(verbose, console));
    steps.push(StartStep::ClearCooldowns);
    steps.push(StartStep::InitDomains);
    steps.push(StartStep::ReadDcMap);
    steps.push(StartStep::SpawnProxy(listen_address(host, port)));
    if verbose {
        steps.push(StartStep::SpawnSummary);
    }
    steps.push(StartStep::AwaitBind);
    assert(start_views(steps@) =~= start_plan(host@, port, verbose, console));
    steps
}

/// How the wait for the listening proxy ended.
#[derive(Clone, Copy, Debug, PartialEq, Eq, Structural)]
pub enum BindResult {
    /// It listens.
    Listening,
    /// It cannot listen.
    Refused,
    /// Its task ended without a word.
    Lost,
}

/// What becomes of the proxy that was just started.
#[derive(Clone, Copy, Debug, PartialEq, Eq, Structural)]
pub enum StartDecision {
    /// Its task is aborted.
    Abort,
    /// It is kept as the running proxy.
    Keep,
    /// The proxy that runs already stays the one on record.
    LeaveOther,
}

/// Decides what becomes of a started proxy: one that does not listen is aborted, one that does
/// is kept unless another is on record.
pub fn after_bind(result: BindResult, other_running: bool) -> (decision: StartDecision)
    ensures
        decision is Abort <==> !(result is Listening),
        decision is Keep <==> result is Listening && !other_running,
        decision is LeaveOther <==> result is Listening && other_running,
{
    match result {
        BindResult::Listening => {
            if other_running {
                StartDecision::LeaveOther
            } else {
                StartDecision::Keep
            }
        },
        _ => StartDecision::Abort,
    }
}

/// How the running proxy's tasks stand.
#[derive(Clone, Copy, Debug, PartialEq, Eq)]
pub struct TaskStatus {
    /// Whether the proxy's own task has finished.
    pub proxy_finished: bool,
    /// Whether the summary task has finished, if there is one.
    pub summary_finished: Option<bool>,
}

/// Whether the watch over the proxy is over: no proxy is on record, or its task has finished
/// and so has the summary task, if there is one.
pub fn watch_is_over(status: Option<TaskStatus>) -> (over: bool)
    ensures
        over == match status {
            None => true,
            Some(status) => status.proxy_finished && status.summary_finished != Some(false),
        },
{
    match status {
        None => true,
        Some(status) => {
            let summary_finished = match status.summary_finished {
                Some(finished) => finished,
                None => true,
            };
            status.proxy_finished && summary_finished
        },
    }
}

/// One step of the stop.
#[derive(Clone, Copy, Debug, PartialEq, Eq, Structural)]
pub enum StopStep {
    /// Cancel every task of the proxy.
    CancelTasks,
    /// Wait for the proxy's task, at most [`STOP_TIMEOUT_SECS`].
    AwaitProxy,
    /// Abort the summary task.
    AbortSummary,
    /// Close the pooled connections.
    ClosePool,
    /// Reset the statistics.
    ResetStats,
    /// Forget which WebSocket addresses failed.
    ClearBlacklist,
    /// Forget which data centres failed.
    ClearDcFailures,
    /// Forget which Cloudflare domains asked to be left alone.
    ClearCooldowns,
}

/// The steps of the stop, in order: nothing without a proxy on record (`None`); otherwise the
/// tasks end before the pool is closed, and what was learnt is forgotten last. The summary
/// task is aborted where there is one.
pub open spec fn stop_plan(has_summary: Option<bool>) -> Seq<StopStep> {
    match has_summary {
        None => Seq::empty(),
        Some(has_summary) => seq![StopStep::CancelTasks, StopStep::AwaitProxy] + (if has_summary {
            seq![StopStep::AbortSummary]
        } else {
            Seq::empty()
        }) + seq![
            StopStep::ClosePool,
            StopStep::ResetStats,
            StopStep::ClearBlacklist,
            StopStep::ClearDcFailures,
            StopStep::ClearCooldowns,
        ],
    }
}

/// The steps of the stop, where `has_summary` tells of the proxy on record whether it has a
/// summary task.
pub fn stop_steps(has_summary: Option<bool>) -> (steps: Vec<StopStep>)
    ensures
        steps@ == stop_plan(has_summary),
{
    let mut steps: Vec<StopStep> = Vec::new();
    match has_summary {
        None => {},
        Some(has_summary) => {
            steps.push(StopStep::CancelTasks);
            steps.push(StopStep::AwaitProxy);
            if has_summary {
                steps.push(StopStep::AbortSummary);
            }
            steps.push(StopStep::ClosePool);
            steps.push(StopStep::ResetStats);
            steps.push(StopStep::ClearBlacklist);
            steps.push(StopStep::ClearDcFailures);
            steps.push(StopStep::ClearCooldowns);
        },
    }
    assert(steps@ =~= stop_plan(has_summary));
    steps
}

/// A proxy on record: its tasks, as the caller holds them, and whether a summary task is among
/// them.
#[derive(Debug)]
pub struct Running<T> {
    pub tasks: T,
    pub has_summary: bool,
}

/// What can happen to the record of the running proxy.
pub enum RecordStep<T> {
    /// A start came to its end: how the wait for the listening proxy ended, and what it started.
    Start(BindResult, Running<T>),
    /// A stop.
    Stop,
}

/// The record after a step. A start is put on record where its proxy listens and no other is on
/// record; a start that is aborted or left aside changes nothing. A stop clears the record.
pub open spec fn record_after<T>(record: Option<Running<T>>, step: RecordStep<T>) -> Option<
    Running<T>,
> {
    match step {
        RecordStep::Start(BindResult::Listening, started) if record is None => Some(started),
        RecordStep::Start(_, _) => record,
        RecordStep::Stop => None,
    }
}

/// Whether the proxy on record has a summary task, if there is one on record.
pub open spec fn summary_on_record<T>(record: Option<Running<T>>) -> Option<bool> {
    match record {
        Some(running) => Some(running.has_summary),
        None => None,
    }
}

/// The stop steps that a step on the record asks for.
pub open spec fn steps_on<T>(record: Option<Running<T>>, step: RecordStep<T>) -> Seq<StopStep> {
    match step {
        RecordStep::Stop => stop_plan(summary_on_record(record)),
        _ => Seq::empty(),
    }
}

/// Ends a start: puts what it started on record, or gives it back where it is to be aborted or
/// left aside.
pub fn finish_start<T>(record: &mut Option<Running<T>>, result: BindResult, started: Running<T>) -> (
    end: (StartDecision, Option<Running<T>>))
    ensures
        *final(record) == record_after(*old(record), RecordStep::Start(result, started)),
        end.0 is Abort <==> !(result is Listening),
        end.0 is Keep <==> result is Listening && *old(record) is None,
        end.0 is LeaveOther <==> result is Listening && *old(record) is Some,
        end.1 == (if end.0 is Keep {
            None
        } else {
            Some(started)
        }),
{
    let decision = after_bind(result, record.is_some());
    match decision {
        StartDecision::Keep => {
            *record = Some(started);
            (decision, None)
        },
        _ => (decision, Some(started)),
    }
}

/// Begins a stop: takes the proxy off the record and gives it back with the steps to take.
pub fn begin_stop<T>(record: &mut Option<Running<T>>) -> (stop: (
    Option<Running<T>>,
    Vec<StopStep>,
))
    ensures
        *final(record) == record_after(*old(record), RecordStep::Stop),
        stop.0 == *old(record),
        *final(record) is None,
        stop.1@ == steps_on(*old(record), RecordStep::Stop),
{
    let running = record.take();
    let has_summary = match &running {
        Some(running) => Some(running.has_summary),
        None => None,
    };
    let steps = stop_steps(has_summary);
    (running, steps)
}

/// Stopping twice is stopping once: after a stop, from whatever record, no proxy is on record,
/// and a second stop takes no step and leaves it so.
pub proof fn law_second_stop_does_nothing<T>(record: Option<Running<T>>)
    ensures
        ({
            let once = record_after(record, RecordStep::Stop);
            let twice = record_after(once, RecordStep::Stop);
            &&& once is None
            &&& twice == once
            &&& steps_on(once, RecordStep::Stop) == Seq::<StopStep>::empty()
            &&& steps_on(record, RecordStep::Stop) + steps_on(once, RecordStep::Stop) == steps_on(
                record,
                RecordStep::Stop,
            )
        }),
{
    let steps = steps_on(record, RecordStep::Stop);
    assert(steps + Seq::<StopStep>::empty() =~= steps);
}

/// A proxy on record stays there, as it is, until a stop: no start replaces it. After a stop the
/// next proxy that listens is put on record.
pub proof fn law_record_is_kept_until_a_stop<T>(
    running: Running<T>,
    result: BindResult,
    started: Running<T>,
)
    ensures
        record_after(Some(running), RecordStep::Start(result, started)) == Some(running),
        record_after(
            record_after(Some(running), RecordStep::Stop),
            RecordStep::Start(BindResult::Listening, started),
        ) == Some(started),
{
}

/// The address to listen on is the host as it is, a colon, and the port in decimal digits
/// without leading zeros, from which the port can be read back.
pub proof fn law_address_is_host_and_port(host: Seq<char>, port: u16)
    ensures
        ({
            let address = address_of(host, port);
            let digits = address.skip(host.len() as int + 1);
            &&& address.len() >= host.len() + 2
            &&& address.take(host.len() as int) == host
            &&& address[host.len() as int] == ':'
            &&& u16_in(digits) == Some(port)
            &&& forall|i: int| 0 <= i < digits.len() ==> '0' <= #[trigger] digits[i] <= '9'
            &&& digits.len() > 1 ==> digits[0] != '0'
        }),
{
    reveal_strlit(":");
    let address = address_of(host, port);
    law_decimal_reads_back(port);
    law_decimal_has_no_leading_zero(port as nat);
    assert(address.take(host.len() as int) =~= host);
    assert(address.skip(host.len() as int + 1) =~= decimal(port as nat));
}

/// The start sets the log up, forgets the cooldowns, loads the domains, reads the data-centre
/// map and starts the proxy, in this order; a verbose one then starts the summary; waiting for
/// the proxy to listen comes last. Nothing else is done and nothing twice.
pub proof fn law_start_takes_these_steps(
    host: Seq<char>,
    port: u16,
    verbose: bool,
    console: bool,
)
    ensures
        ({
            let steps = start_plan(host, port, verbose, console);
            &&& steps.len() == (if verbose {
                7int
            } else {
                6int
            })
            &&& steps[0] == StartStepView::InitLogging(verbose, console)
            &&& steps[1] is ClearCooldowns
            &&& steps[2] is InitDomains
            &&& steps[3] is ReadDcMap
            &&& steps[4] == StartStepView::SpawnProxy(address_of(host, port))
            &&& verbose ==> steps[5] is SpawnSummary
            &&& steps.last() is AwaitBind
        }),
{
}

/// The stop cancels the tasks, waits for the proxy, aborts the summary where there is one,
/// closes the pool, and forgets the statistics, the blacklist, the failures and the cooldowns,
/// in this order. Without a proxy on record it does nothing.
pub proof fn law_stop_takes_these_steps(has_summary: bool)
    ensures
        stop_plan(None).len() == 0,
        ({
            let steps = stop_plan(Some(has_summary));
            let closing: int = if has_summary {
                3
            } else {
                2
            };
            &&& steps.len() == closing + 5
            &&& steps[0] is CancelTasks
            &&& steps[1] is AwaitProxy
            &&& has_summary ==> steps[2] is AbortSummary
            &&& steps[closing] is ClosePool
            &&& steps[closing + 1] is ResetStats
            &&& steps[closing + 2] is ClearBlacklist
            &&& steps[closing + 3] is ClearDcFailures
            &&& steps[closing + 4] is ClearCooldowns
        }),
{
}

/// What a step makes of the record, whatever was on it. A proxy that listens goes on an empty
/// record as it is, tasks and all; one that does not listen leaves the record as it was, and so
/// does any start while a proxy is on it. A stop clears it and asks for the steps for the proxy
/// that it took off; a start asks for none.
pub proof fn law_record_takes_its_course<T>(
    record: Option<Running<T>>,
    result: BindResult,
    started: Running<T>,
)
    ensures
        record_after(record, RecordStep::Start(result, started)) == (if record is None
            && result is Listening {
            Some(started)
        } else {
            record
        }),
        record_after(record, RecordStep::Stop) is None,
        steps_on(record, RecordStep::Start(result, started)).len() == 0,
        record matches Some(running) ==> steps_on(record, RecordStep::Stop) == stop_plan(
            Some(running.has_summary),
        ),
        record is None ==> steps_on(record, RecordStep::Stop).len() == 0,
{
}

/// The views of the start's steps hold their switches and addresses unchanged, in order.
pub proof fn law_start_views_are_faithful(
    verbose: bool,
    console: bool,
    address: String,
    steps: Seq<StartStep>,
)
    ensures
        StartStep::InitLogging(verbose, console)@ == StartStepView::InitLogging(verbose, console),
        StartStep::ClearCooldowns@ is ClearCooldowns,
        StartStep::InitDomains@ is InitDomains,
        StartStep::ReadDcMap@ is ReadDcMap,
        StartStep::SpawnProxy(address)@ == StartStepView::SpawnProxy(address@),
        StartStep::SpawnSummary@ is SpawnSummary,
        StartStep::AwaitBind@ is AwaitBind,
        start_views(steps).len() == steps.len(),
        forall|i: int| 0 <= i < steps.len() ==> #[trigger] start_views(steps)[i] == steps[i]@,
{
}

/// Summaries come once a minute, the tasks are looked at twenty times a second, and the proxy's
/// task gets two seconds to finish.
pub proof fn law_times_of_the_watch()
    ensures
        SUMMARY_INTERVAL_SECS == 60,
        WATCH_INTERVAL_MILLIS * 20 == 1000,
        STOP_TIMEOUT_SECS == 2,
{
}

} // verus!
