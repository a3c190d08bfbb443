//! Waiting for an approval while the client's connection stays open.
//!
//! The wait alternates between the clock and the engine: before it rests it is
//! checked against its deadline, after each tick it may send a sign of life, and
//! the engine's answer ends it or lets it go on. What happens is handed to the
//! wait as an event, and the wait says what to do next.

use vstd::prelude::*;
use vstd::string::*;

use crate::error::ThoughtGateError;
use crate::governance::engine::{
    answer_view, execution_step, Answer, ApprovalEngineConfig, ExecutionStepView,
};
use crate::governance::task::store::Tasks;
use crate::governance::task::types::ToolCallResult;
use crate::json::{
    item_views, lemma_item_views, lemma_member_views, lemma_position_is, member_views, Json,
    JsonNumber, JsonView,
};
use crate::text::{decimal, numeral};
use crate::time::{Duration, Timestamp, NANOS_PER_MILLI, NANOS_PER_SEC};

verus! {

/// Shortest interval between polls, in milliseconds.
pub const MIN_POLL_MILLIS: u64 = 100;

/// Longest interval between polls, in seconds.
pub const MAX_POLL_SECS: u64 = 30;

/// The interval at which a wait polls: the one that is asked for, within 100
/// milliseconds and 30 seconds.
pub open spec fn poll_interval_in_limits(asked: Duration) -> Duration {
    if asked.nanos < MIN_POLL_MILLIS * NANOS_PER_MILLI {
        Duration { nanos: (MIN_POLL_MILLIS * NANOS_PER_MILLI) as u128 }
    } else if asked.nanos > MAX_POLL_SECS * NANOS_PER_SEC {
        Duration::of_secs(MAX_POLL_SECS as nat)
    } else {
        asked
    }
}

/// The text that tells an agent that nobody decided in time.
pub open spec fn timeout_text(secs: u64, tool: Seq<char>) -> Seq<char> {
    "Approval timed out after "@ + numeral(secs as nat) + "s for tool '"@ + tool
        + "'. The request was sent to the approval channel but no response was received. The tool call was NOT executed. You may retry."@
}

/// The result that an agent gets when nobody decided in time.
pub open spec fn timeout_result(secs: u64, tool: Seq<char>) -> ToolCallResult<JsonView> {
    ToolCallResult {
        content: JsonView::Array(
            seq![
                JsonView::Object(
                    seq![
                        ("type"@, JsonView::String("text"@)),
                        ("text"@, JsonView::String(timeout_text(secs, tool))),
                    ],
                ),
            ],
        ),
        is_error: true,
    }
}

/// The sign of life of a wait.
pub open spec fn progress_message(task_id: Seq<char>) -> JsonView {
    JsonView::Object(
        seq![
            ("jsonrpc"@, JsonView::String("2.0"@)),
            ("method"@, JsonView::String("notifications/progress"@)),
            (
                "params"@,
                JsonView::Object(
                    seq![
                        ("progressToken"@, JsonView::String("blocking-"@ + task_id)),
                        ("progress"@, JsonView::Number(JsonNumber::Int(0))),
                        ("total"@, JsonView::Number(JsonNumber::Int(1))),
                        ("message"@, JsonView::String("Awaiting approval..."@)),
                    ],
                ),
            ),
        ],
    )
}

/// What the engine's answer means for a wait: nothing yet, or what the agent is
/// answered. A timeout of the task becomes a result that says so.
pub open spec fn wait_outcome(answer: Answer) -> Option<Answer> {
    match answer {
        Err(ThoughtGateError::TaskResultNotReady { .. }) => None,
        Err(ThoughtGateError::ApprovalTimeout { tool, timeout_secs, .. }) => Some(
            Ok(timeout_result(timeout_secs, tool)),
        ),
        _ => Some(answer),
    }
}

/// The interval at which a wait polls.
pub fn clamp_poll_interval(asked: Duration) -> (r: Duration)
    ensures
        r == poll_interval_in_limits(asked),
{
    if asked.nanos < MIN_POLL_MILLIS as u128 * NANOS_PER_MILLI {
        Duration::from_millis(MIN_POLL_MILLIS)
    } else if asked.nanos > MAX_POLL_SECS as u128 * NANOS_PER_SEC {
        Duration::from_secs(MAX_POLL_SECS)
    } else {
        asked
    }
}

fn make_timeout_result(secs: u64, tool: &str) -> (r: ToolCallResult)
    ensures
        r@ == timeout_result(secs, tool@),
{
    let text = "Approval timed out after ".to_owned().concat(decimal(secs).as_str()).concat(
        "s for tool '",
    ).concat(tool).concat(
        "'. The request was sent to the approval channel but no response was received. The tool call was NOT executed. You may retry.",
    );
    let mut members: Vec<(String, Json)> = Vec::new();
    members.push(("type".to_owned(), Json::String("text".to_owned())));
    members.push(("text".to_owned(), Json::String(text)));
    let ghost shown = members@;
    let mut items: Vec<Json> = Vec::new();
    items.push(Json::Object(members));
    proof {
        lemma_member_views(shown);
        assert(member_views(shown) =~= seq![
            ("type"@, JsonView::String("text"@)),
            ("text"@, JsonView::String(timeout_text(secs, tool@))),
        ]);
        lemma_item_views(items@);
        assert(item_views(items@) =~= seq![JsonView::Object(member_views(shown))]);
    }
    ToolCallResult { content: Json::Array(items), is_error: true }
}

fn make_progress_message(task_id: &str) -> (r: Json)
    ensures
        r@ == progress_message(task_id@),
{
    let mut params: Vec<(String, Json)> = Vec::new();
    params.push(
        ("progressToken".to_owned(), Json::String("blocking-".to_owned().concat(task_id))),
    );
    params.push(("progress".to_owned(), Json::Number(JsonNumber::Int(0))));
    params.push(("total".to_owned(), Json::Number(JsonNumber::Int(1))));
    params.push(("message".to_owned(), Json::String("Awaiting approval...".to_owned())));
    let ghost inner = params@;
    let mut members: Vec<(String, Json)> = Vec::new();
    members.push(("jsonrpc".to_owned(), Json::String("2.0".to_owned())));
    members.push(("method".to_owned(), Json::String("notifications/progress".to_owned())));
    members.push(("params".to_owned(), Json::Object(params)));
    proof {
        lemma_member_views(inner);
        assert(member_views(inner) =~= seq![
            ("progressToken"@, JsonView::String("blocking-"@ + task_id@)),
            ("progress"@, JsonView::Number(JsonNumber::Int(0))),
            ("total"@, JsonView::Number(JsonNumber::Int(1))),
            ("message"@, JsonView::String("Awaiting approval..."@)),
        ]);
        lemma_member_views(members@);
        assert(member_views(members@) =~= seq![
            ("jsonrpc"@, JsonView::String("2.0"@)),
            ("method"@, JsonView::String("notifications/progress"@)),
            ("params"@, JsonView::Object(member_views(inner))),
        ]);
    }
    Json::Object(members)
}

/// A wait for an approval.
#[derive(Debug)]
pub struct BlockingWait {
    /// The task that is waited for.
    pub task_id: String,
    /// Name of the tool.
    pub tool_name: String,
    /// How long to wait.
    pub timeout: Duration,
    /// When the wait ends.
    pub deadline: Timestamp,
    /// How often to send a sign of life; `None` if nobody listens.
    pub heartbeat: Option<Duration>,
    /// When the last sign of life was sent, or the wait began.
    pub last_heartbeat: Timestamp,
}

/// Whether a sign of life is due.
pub open spec fn heartbeat_due(wait: BlockingWait, now: Timestamp) -> bool {
    match wait.heartbeat {
        Some(every) => now.since(wait.last_heartbeat).nanos >= every.nanos,
        None => false,
    }
}

impl BlockingWait {
    /// Begins a wait.
    pub fn new(
        task_id: String,
        tool_name: String,
        timeout: Duration,
        heartbeat: Option<Duration>,
        now: Timestamp,
    ) -> (r: Self)
        ensures
            r == (BlockingWait {
                task_id,
                tool_name,
                timeout,
                deadline: now.after(timeout),
                heartbeat,
                last_heartbeat: now,
            }),
    {
        BlockingWait {
            task_id,
            tool_name,
            timeout,
            deadline: now.plus(timeout),
            heartbeat,
            last_heartbeat: now,
        }
    }

    /// The result to answer if the deadline has passed.
    fn check_deadline(&self, now: Timestamp) -> (r: Option<ToolCallResult>)
        ensures
            match r {
                Some(t) => now.nanos >= self.deadline.nanos && t@ == timeout_result(
                    self.timeout.secs(),
                    self.tool_name@,
                ),
                None => now.nanos < self.deadline.nanos,
            },
    {
        if now.nanos >= self.deadline.nanos {
            Some(make_timeout_result(self.timeout.as_secs(), self.tool_name.as_str()))
        } else {
            None
        }
    }

    /// The sign of life to send if one is due.
    fn beat(&mut self, now: Timestamp) -> (r: Option<Json>)
        ensures
            match r {
                Some(m) => heartbeat_due(*old(self), now) && m@ == progress_message(
                    old(self).task_id@,
                ),
                None => !heartbeat_due(*old(self), now),
            },
            *final(self) == if heartbeat_due(*old(self), now) {
                BlockingWait { last_heartbeat: now, ..*old(self) }
            } else {
                *old(self)
            },
    {
        match self.heartbeat {
            Some(every) => {
                if now.elapsed_since(self.last_heartbeat).nanos >= every.nanos {
                    self.last_heartbeat = now;
                    Some(make_progress_message(self.task_id.as_str()))
                } else {
                    None
                }
            },
            None => None,
        }
    }
}

/// What the agent is answered after a poll; `None` if the wait goes on.
fn settle_wait(answer: Result<ToolCallResult, ThoughtGateError>) -> (r: Option<
    Result<ToolCallResult, ThoughtGateError>,
>)
    ensures
        match r {
            Some(a) => wait_outcome(answer_view(answer)) == Some(answer_view(a)),
            None => wait_outcome(answer_view(answer)) is None,
        },
        answer matches Ok(result) ==> r == Some(Ok::<ToolCallResult, ThoughtGateError>(result)),
        answer matches Err(e) ==> !(e is TaskResultNotReady) && !(e is ApprovalTimeout) ==> r
            == Some(Err::<ToolCallResult, ThoughtGateError>(e)),
        answer matches Err(e) ==> (e is TaskResultNotReady <==> r is None),
{
    match answer {
        Ok(result) => Some(Ok(result)),
        Err(e) => match e {
            ThoughtGateError::TaskResultNotReady { task_id } => None,
            ThoughtGateError::ApprovalTimeout { tool, timeout_secs, workflow } => Some(
                Ok(make_timeout_result(timeout_secs, tool.as_str())),
            ),
            other => Some(Err(other)),
        },
    }
}

/// What has happened in a wait.
#[derive(Debug)]
pub enum WaitEvent {
    /// The wait has begun.
    Begun,
    /// The interval between polls has passed.
    Ticked,
    /// The engine has answered a poll.
    Answered(Result<ToolCallResult, ThoughtGateError>),
}

/// The mathematical view of an event.
pub enum WaitEventView {
    Begun,
    Ticked,
    Answered(Answer),
}

impl WaitEvent {
    /// The event with the engine's answer taken by its view.
    pub open spec fn view(self) -> WaitEventView {
        match self {
            WaitEvent::Begun => WaitEventView::Begun,
            WaitEvent::Ticked => WaitEventView::Ticked,
            WaitEvent::Answered(answer) => WaitEventView::Answered(answer_view(answer)),
        }
    }
}

/// What a wait does next.
#[derive(Debug)]
pub enum WaitAction {
    /// Let the interval between polls pass.
    Rest,
    /// Send the sign of life, if there is one, and poll the engine.
    Poll(Option<Json>),
    /// Answer the agent; the wait is over.
    Answer(Result<ToolCallResult, ThoughtGateError>),
}

/// The mathematical view of an action.
pub enum WaitActionView {
    Rest,
    Poll(Option<JsonView>),
    Answer(Answer),
}

impl WaitAction {
    /// The action with its message and its answer taken by their views.
    pub open spec fn view(self) -> WaitActionView {
        match self {
            WaitAction::Rest => WaitActionView::Rest,
            WaitAction::Poll(None) => WaitActionView::Poll(None),
            WaitAction::Poll(Some(m)) => WaitActionView::Poll(Some(m@)),
            WaitAction::Answer(answer) => WaitActionView::Answer(answer_view(answer)),
        }
    }
}

/// What a wait does when it may go on: rest, unless its deadline has passed.
pub open spec fn rest_or_give_up(wait: BlockingWait, now: Timestamp) -> WaitActionView {
    if now.nanos >= wait.deadline.nanos {
        WaitActionView::Answer(Ok(timeout_result(wait.timeout.secs(), wait.tool_name@)))
    } else {
        WaitActionView::Rest
    }
}

/// What a wait does next.
pub open spec fn wait_action(
    wait: BlockingWait,
    event: WaitEventView,
    now: Timestamp,
) -> WaitActionView {
    match event {
        WaitEventView::Begun => rest_or_give_up(wait, now),
        WaitEventView::Ticked => WaitActionView::Poll(
            if heartbeat_due(wait, now) {
                Some(progress_message(wait.task_id@))
            } else {
                None
            },
        ),
        WaitEventView::Answered(answer) => match wait_outcome(answer) {
            Some(last) => WaitActionView::Answer(last),
            None => rest_or_give_up(wait, now),
        },
    }
}

/// A wait after an event: a tick at which a sign of life is due is remembered.
pub open spec fn wait_after(
    wait: BlockingWait,
    event: WaitEventView,
    now: Timestamp,
) -> BlockingWait {
    if event is Ticked && heartbeat_due(wait, now) {
        BlockingWait { last_heartbeat: now, ..wait }
    } else {
        wait
    }
}

impl BlockingWait {
    /// Takes an event and decides what the wait does next.
    pub fn step(&mut self, event: WaitEvent, now: Timestamp) -> (r: WaitAction)
        ensures
            r@ == wait_action(*old(self), event@, now),
            *final(self) == wait_after(*old(self), event@, now),
    {
        match event {
            WaitEvent::Begun => {},
            WaitEvent::Ticked => {
                return WaitAction::Poll(self.beat(now));
            },
            WaitEvent::Answered(answer) => {
                if let Some(last) = settle_wait(answer) {
                    return WaitAction::Answer(last);
                }
            },
        }
        match self.check_deadline(now) {
            Some(result) => WaitAction::Answer(Ok(result)),
            None => WaitAction::Rest,
        }
    }
}

/// A wait goes on after a poll exactly if the task still awaits a decision.
pub proof fn law_wait_goes_on_while_undecided(
    tasks: Tasks,
    running: Set<Seq<char>>,
    config: ApprovalEngineConfig,
    id: Seq<char>,
    now: Timestamp,
)
    ensures
        match execution_step(tasks, running, config, id, now) {
            ExecutionStepView::Answer(answer) => wait_outcome(answer) is None
                <==> tasks.contains_key(id) && (tasks[id].task.status is Working
                || tasks[id].task.status is InputRequired),
            ExecutionStepView::Execute(_) => true,
        },
{
}

/// A wait that has reached its deadline polls no more: unless the last poll
/// settled it, the agent is told that nobody decided in time.
pub proof fn law_wait_ends_at_its_deadline(
    wait: BlockingWait,
    answer: Answer,
    now: Timestamp,
)
    requires
        now.nanos >= wait.deadline.nanos,
    ensures
        wait_action(wait, WaitEventView::Begun, now) is Answer,
        wait_action(wait, WaitEventView::Answered(answer), now) is Answer,
        wait_outcome(answer) is None ==> wait_action(wait, WaitEventView::Answered(answer), now)
            == WaitActionView::Answer(Ok(timeout_result(wait.timeout.secs(), wait.tool_name@))),
{
}

/// The interval between polls is always within its limits, and one that is
/// within them is kept.
pub proof fn law_poll_interval_within_limits(asked: Duration)
    ensures
        MIN_POLL_MILLIS * NANOS_PER_MILLI <= poll_interval_in_limits(asked).nanos <= MAX_POLL_SECS
            * NANOS_PER_SEC,
        poll_interval_in_limits(poll_interval_in_limits(asked)) == poll_interval_in_limits(asked),
        asked.nanos <= 100_000_000 ==> poll_interval_in_limits(asked).nanos == 100_000_000,
        asked.nanos >= 30_000_000_000 ==> poll_interval_in_limits(asked).nanos == 30_000_000_000,
        100_000_000 <= asked.nanos <= 30_000_000_000 ==> poll_interval_in_limits(asked) == asked,
{
}

/// A wait ends with what the engine answers: with exactly the result of the call,
/// its content and its error flag, or with exactly the error. Two answers are not
/// passed on: one that says that the task is not ready lets the wait go on until
/// its deadline, and one that says that nobody decided in time becomes a result
/// that tells the agent so.
pub proof fn law_wait_ends_with_the_answer(wait: BlockingWait, answer: Answer, now: Timestamp)
    ensures
        ({
            let action = wait_action(wait, WaitEventView::Answered(answer), now);
            match answer {
                Ok(result) => action == WaitActionView::Answer(Ok(result)),
                Err(e) => {
                    &&& !(e is TaskResultNotReady) && !(e is ApprovalTimeout) ==> action
                        == WaitActionView::Answer(Err(e))
                    &&& e is TaskResultNotReady && now.nanos < wait.deadline.nanos ==> action
                        is Rest
                    &&& e is ApprovalTimeout ==> action is Answer && tells_timeout(
                        action->Answer_0,
                        e->ApprovalTimeout_timeout_secs,
                        e->ApprovalTimeout_tool,
                    )
                },
            }
        }),
        wait_after(wait, WaitEventView::Answered(answer), now) == wait,
{
    if let Err(ThoughtGateError::ApprovalTimeout { tool, timeout_secs, .. }) = answer {
        lemma_timeout_is_told(timeout_secs, tool);
    }
}

/// Whether an answer tells the agent that nobody decided within some seconds on the
/// call of a tool: it is an error result with one text, which names both and says
/// that the call was not executed.
pub open spec fn tells_timeout(answer: Answer, secs: u64, tool: Seq<char>) -> bool {
    &&& answer is Ok
    &&& answer->Ok_0.is_error
    &&& answer->Ok_0.content is Array
    &&& answer->Ok_0.content->Array_0.len() == 1
    &&& answer->Ok_0.content->Array_0[0].member("type"@) == Some(JsonView::String("text"@))
    &&& answer->Ok_0.content->Array_0[0].member("text"@) == Some(
        JsonView::String(
            "Approval timed out after "@ + numeral(secs as nat) + "s for tool '"@ + tool
                + "'. The request was sent to the approval channel but no response was received. The tool call was NOT executed. You may retry."@,
        ),
    )
}

proof fn lemma_timeout_is_told(secs: u64, tool: Seq<char>)
    ensures
        tells_timeout(Ok(timeout_result(secs, tool)), secs, tool),
{
    reveal_strlit("type");
    reveal_strlit("text");
    assert("type"@[1] != "text"@[1]);
    let item = timeout_result(secs, tool).content->Array_0[0];
    let members = item->Object_0;
    lemma_position_is(members, "type"@, 0);
    lemma_position_is(members, "text"@, 1);
}

/// A wait that is over its deadline before it rests tells the agent that nobody
/// decided within the time that the wait had; one that is not rests.
pub proof fn law_wait_tells_its_timeout(wait: BlockingWait, id: Seq<char>, now: Timestamp)
    ensures
        ({
            let begun = wait_action(wait, WaitEventView::Begun, now);
            let polled = wait_action(
                wait,
                WaitEventView::Answered(Err(ThoughtGateError::TaskResultNotReady { task_id: id })),
                now,
            );
            &&& now.nanos < wait.deadline.nanos ==> begun is Rest && polled is Rest
            &&& now.nanos >= wait.deadline.nanos ==> {
                &&& begun is Answer && polled is Answer
                &&& tells_timeout(begun->Answer_0, wait.timeout.secs(), wait.tool_name@)
                &&& tells_timeout(polled->Answer_0, wait.timeout.secs(), wait.tool_name@)
            }
        }),
{
    lemma_timeout_is_told(wait.timeout.secs(), wait.tool_name@);
}

/// After each interval the engine is polled. A sign of life is sent along exactly
/// if somebody listens and the interval between signs has passed since the last
/// one; it is a progress notification that names the task, and it is remembered,
/// so that the next one is due an interval later.
pub proof fn law_signs_of_life_keep_their_interval(wait: BlockingWait, now: Timestamp)
    ensures
        ({
            let action = wait_action(wait, WaitEventView::Ticked, now);
            let after = wait_after(wait, WaitEventView::Ticked, now);
            let due = wait.heartbeat is Some && now.nanos - wait.last_heartbeat.nanos
                >= wait.heartbeat->0.nanos;
            &&& action is Poll
            &&& wait.heartbeat is None ==> action->Poll_0 is None
            &&& now.nanos >= wait.last_heartbeat.nanos ==> (action->Poll_0 is Some <==> due)
            &&& action->Poll_0 is Some ==> {
                let sign = action->Poll_0->0;
                &&& sign.member("jsonrpc"@) == Some(JsonView::String("2.0"@))
                &&& sign.member("method"@) == Some(JsonView::String("notifications/progress"@))
                &&& sign.member("params"@) is Some
                &&& sign.member("params"@)->0.member("progressToken"@) == Some(
                    JsonView::String("blocking-"@ + wait.task_id@),
                )
                &&& after.last_heartbeat == now
            }
            &&& action->Poll_0 is None ==> after.last_heartbeat == wait.last_heartbeat
            &&& after.task_id == wait.task_id && after.tool_name == wait.tool_name
            &&& after.timeout == wait.timeout && after.deadline == wait.deadline
            &&& after.heartbeat == wait.heartbeat
        }),
{
    reveal_strlit("jsonrpc");
    reveal_strlit("method");
    reveal_strlit("params");
    assert("jsonrpc"@.len() == 7 && "method"@.len() == 6 && "params"@.len() == 6);
    assert("method"@[0] != "params"@[0]);
    let sign = progress_message(wait.task_id@);
    let members = sign->Object_0;
    lemma_position_is(members, "jsonrpc"@, 0);
    lemma_position_is(members, "method"@, 1);
    lemma_position_is(members, "params"@, 2);
    lemma_position_is(members[2].1->Object_0, "progressToken"@, 0);
}

} // verus!
