//! Laws of what is answered over the web.

use crate::a2a::{
    Artifact, Message, TaskEvent, TaskEventModel, TaskState, TaskStatus, TaskView, Timestamp,
};
use crate::agent::builder::AgentDefinition;
use crate::errors::{AgentError, ErrorView};
use crate::json::{Json, JsonNumber, JsonValue};
use crate::models::{Content, Role};
use crate::runtime::context::ProgressSender;
use crate::runtime::web::{
    asked_for, base_url, build_jsonrpc_error_response, build_jsonrpc_success_response, by_time,
    ends_with, fetch_task_events, fetch_v1_tasks, has_last, has_status, id_json, in_context,
    is_card, is_last, json_rpc_method, last_messages, last_state, listed, looked_at, method_named,
    next_token, normalized, not_before, not_older, ordered_by_time, page, page_size_of, page_start,
    parse_json_body, parse_rpc_params, port_of, public_url, put_by_time, rfc3339_seconds,
    rfc3339_text, sent_for, shown, state_named, status_second, task_get_route, task_post_route,
    task_state_matches_filter, transitions_of, up_to_last, without_slashes, AgentCard, JsonRpcId,
    ListTasksQuery, ListTasksResponse, RpcMethod, StreamResponse, TaskGetRoute, TaskPostRoute,
    TransitionModel, UiTaskEventsResponse, UiTaskSummary,
};
use crate::text::{
    ascii_upper, decimal, is_blank, lemma_decimal_reads_back, numbers_are_read,
    pieces_go_on_behind_a_separator, pieces_make_up_the_text, split_on, starts_with, texts,
    texts_stand_where_they_are_put, trimming_takes_off_white_space,
};
use vstd::prelude::*;

verus! {

// ---------------------------------------------------------------------------
// Which tasks are listed
// ---------------------------------------------------------------------------

/// The name that the protocol has for a state.
pub open spec fn protocol_name(state: TaskState) -> Seq<char> {
    match state {
        TaskState::Unspecified => "TASK_STATE_UNSPECIFIED"@,
        TaskState::Submitted => "TASK_STATE_SUBMITTED"@,
        TaskState::Working => "TASK_STATE_WORKING"@,
        TaskState::Completed => "TASK_STATE_COMPLETED"@,
        TaskState::Failed => "TASK_STATE_FAILED"@,
        TaskState::Canceled => "TASK_STATE_CANCELED"@,
        TaskState::InputRequired => "TASK_STATE_INPUT_REQUIRED"@,
        TaskState::Rejected => "TASK_STATE_REJECTED"@,
        TaskState::AuthRequired => "TASK_STATE_AUTH_REQUIRED"@,
    }
}

/// The short name of a state.
pub open spec fn short_name(state: TaskState) -> Seq<char> {
    match state {
        TaskState::Unspecified => "UNKNOWN"@,
        TaskState::Submitted => "SUBMITTED"@,
        TaskState::Working => "WORKING"@,
        TaskState::Completed => "COMPLETED"@,
        TaskState::Failed => "FAILED"@,
        TaskState::Canceled => "CANCELED"@,
        TaskState::InputRequired => "INPUT_REQUIRED"@,
        TaskState::Rejected => "REJECTED"@,
        TaskState::AuthRequired => "AUTH_REQUIRED"@,
    }
}

/// The number of a state in the protocol.
pub open spec fn protocol_number(state: TaskState) -> int {
    match state {
        TaskState::Unspecified => 0,
        TaskState::Submitted => 1,
        TaskState::Working => 2,
        TaskState::Completed => 3,
        TaskState::Failed => 4,
        TaskState::Canceled => 5,
        TaskState::InputRequired => 6,
        TaskState::Rejected => 7,
        TaskState::AuthRequired => 8,
    }
}

/// `written` is this name in upper case, but for letters that are in lower case.
pub open spec fn spells(written: Seq<char>, name: Seq<char>) -> bool {
    written.len() == name.len() && forall|i: int|
        0 <= i < name.len() ==> if 'a' <= #[trigger] written[i] <= 'z' {
            name[i] == (written[i] as u32 - 32) as char
        } else {
            name[i] == written[i]
        }
}

/// The first and the last character can be seen.
pub open spec fn framed(name: Seq<char>) -> bool {
    name.len() > 0 && '!' <= name[0] <= '~' && '!' <= name.last() <= '~'
}

proof fn lemma_normalized(
    before: Seq<char>,
    written: Seq<char>,
    after: Seq<char>,
    name: Seq<char>,
)
    requires
        is_blank(before),
        is_blank(after),
        spells(written, name),
        framed(name),
    ensures
        normalized(before + written + after) == name,
{
    let n = name.len() as int;
    assert(written[0] == name[0] || 'a' <= written[0] <= 'z');
    assert(written[n - 1] == name[n - 1] || 'a' <= written[n - 1] <= 'z');
    trimming_takes_off_white_space(before, written, after);
    let up = written.map_values(|c: char| ascii_upper(c));
    assert forall|i: int| 0 <= i < n implies up[i] == name[i] by {
        assert(up[i] == ascii_upper(written[i]));
    }
    assert(up =~= name);
}

proof fn lemma_names()
    ensures
        forall|s: TaskState| #![trigger protocol_name(s)] state_named(protocol_name(s)) == Some(s),
        forall|s: TaskState| #![trigger short_name(s)] state_named(short_name(s)) == Some(s),
        forall|s: TaskState| #![trigger protocol_name(s)] framed(protocol_name(s)),
        forall|s: TaskState| #![trigger short_name(s)] framed(short_name(s)),
{
    reveal_strlit("TASK_STATE_UNSPECIFIED");
    reveal_strlit("TASK_STATE_SUBMITTED");
    reveal_strlit("TASK_STATE_WORKING");
    reveal_strlit("TASK_STATE_COMPLETED");
    reveal_strlit("TASK_STATE_FAILED");
    reveal_strlit("TASK_STATE_CANCELED");
    reveal_strlit("TASK_STATE_INPUT_REQUIRED");
    reveal_strlit("TASK_STATE_REJECTED");
    reveal_strlit("TASK_STATE_AUTH_REQUIRED");
    reveal_strlit("UNKNOWN");
    reveal_strlit("SUBMITTED");
    reveal_strlit("WORKING");
    reveal_strlit("COMPLETED");
    reveal_strlit("FAILED");
    reveal_strlit("CANCELED");
    reveal_strlit("INPUT_REQUIRED");
    reveal_strlit("REJECTED");
    reveal_strlit("AUTH_REQUIRED");
    assert("TASK_STATE_SUBMITTED"@[11] == 'S' && "TASK_STATE_COMPLETED"@[11] == 'C');
    assert("TASK_STATE_CANCELED"@[11] == 'C' && "TASK_STATE_REJECTED"@[11] == 'R');
    assert("SUBMITTED"@[0] == 'S' && "COMPLETED"@[0] == 'C');
    assert("CANCELED"@[0] == 'C' && "REJECTED"@[0] == 'R');
    assert("WORKING"@[0] == 'W' && "UNKNOWN"@[0] == 'U');
    assert forall|s: TaskState| #![trigger protocol_name(s)] framed(protocol_name(s)) by {
        let n = protocol_name(s);
        assert(n[0] == 'T');
        assert(n.last() == 'D' || n.last() == 'G');
    }
    assert forall|s: TaskState| #![trigger short_name(s)] framed(short_name(s)) by {
        let n = short_name(s);
        assert('A' <= n[0] <= 'Z');
        assert(n.last() == 'D' || n.last() == 'G' || n.last() == 'N');
    }
}

/// Each state selects its own tasks: given the name of a state, short or that of the protocol,
/// in upper or lower case and with white space around it or not, exactly the tasks whose status
/// has the number of that state are found.
pub proof fn names_select_their_state(
    task: TaskView,
    before: Seq<char>,
    written: Seq<char>,
    after: Seq<char>,
    state: TaskState,
)
    requires
        is_blank(before),
        is_blank(after),
        spells(written, protocol_name(state)) || spells(written, short_name(state)),
    ensures
        has_status(task, before + written + after) == Ok::<bool, ErrorView>(
            task.status is Some && task.status->Some_0.state == protocol_number(state),
        ),
{
    lemma_names();
    if spells(written, protocol_name(state)) {
        lemma_normalized(before, written, after, protocol_name(state));
    } else {
        lemma_normalized(before, written, after, short_name(state));
    }
}

/// No name of a state selects a task that is in another state.
pub proof fn names_select_no_other_state(
    task: TaskView,
    written: Seq<char>,
    state: TaskState,
    other: TaskState,
)
    requires
        spells(written, protocol_name(state)) || spells(written, short_name(state)),
        task.status is Some,
        task.status->Some_0.state == other.code(),
    ensures
        has_status(task, written) == Ok::<bool, ErrorView>(state == other),
{
    let none = Seq::<char>::empty();
    names_select_their_state(task, none, written, none, state);
    assert(none + written + none =~= written);
}

/// A status that is the name of no state is refused, with the name in upper case.
pub proof fn unknown_states_are_refused(
    task: TaskView,
    before: Seq<char>,
    written: Seq<char>,
    after: Seq<char>,
    name: Seq<char>,
)
    requires
        is_blank(before),
        is_blank(after),
        spells(written, name),
        framed(name),
        forall|state: TaskState|
            #![trigger protocol_name(state)]
            #![trigger short_name(state)]
            name != protocol_name(state) && name != short_name(state),
    ensures
        has_status(task, before + written + after) == Err::<bool, ErrorView>(
            ErrorView::Validation {
                field: "status"@,
                reason: "unsupported task state `"@ + name + "`"@,
            },
        ),
{
    lemma_normalized(before, written, after, name);
    assert(name != protocol_name(TaskState::Unspecified) && name != short_name(
        TaskState::Unspecified,
    ));
    assert(name != protocol_name(TaskState::Submitted) && name != short_name(TaskState::Submitted));
    assert(name != protocol_name(TaskState::Working) && name != short_name(TaskState::Working));
    assert(name != protocol_name(TaskState::Completed) && name != short_name(TaskState::Completed));
    assert(name != protocol_name(TaskState::Failed) && name != short_name(TaskState::Failed));
    assert(name != protocol_name(TaskState::Canceled) && name != short_name(TaskState::Canceled));
    assert(name != protocol_name(TaskState::InputRequired) && name != short_name(
        TaskState::InputRequired,
    ));
    assert(name != protocol_name(TaskState::Rejected) && name != short_name(TaskState::Rejected));
    assert(name != protocol_name(TaskState::AuthRequired) && name != short_name(
        TaskState::AuthRequired,
    ));
}

/// A task is not older than a time where its status came in that second or later. A task
/// without the time of its status is older than any, and a time that cannot be read is refused.
pub proof fn times_select_what_is_not_older(task: TaskView, status: TaskStatus, after: Seq<char>)
    requires
        task.status == Some(status),
    ensures
        status.timestamp is None ==> not_older(task, after) == Ok::<bool, ErrorView>(false),
        status.timestamp matches Some(t) ==> 0 <= t.nanos < 1_000_000_000 && -62_135_596_800
            <= t.seconds <= 253_402_300_799 ==> match rfc3339_seconds(after) {
            Ok(n) => not_older(task, after) == Ok::<bool, ErrorView>(!(t.seconds < n)),
            Err(m) => not_older(task, after) == Err::<bool, ErrorView>(
                ErrorView::Validation { field: "status_timestamp_after"@, reason: m },
            ),
        },
        status.timestamp matches Some(t) ==> t.nanos < 0 ==> not_older(task, after) == Err::<
            bool,
            ErrorView,
        >(
            ErrorView::Validation {
                field: "task.status.timestamp"@,
                reason: "invalid timestamp"@,
            },
        ),
{
}

/// A task is listed where it has the status that is asked for and is not older than the time
/// that is asked for; what is not asked for does not count.
pub proof fn tasks_are_listed_where_asked_for(task: TaskView, query: ListTasksQuery)
    ensures
        query.status is None && query.status_timestamp_after is None ==> asked_for(task, query)
            == Ok::<bool, ErrorView>(true),
        query.status matches Some(s) ==> query.status_timestamp_after is None ==> asked_for(
            task,
            query,
        ) == has_status(task, s@),
        query.status is None ==> (query.status_timestamp_after matches Some(a) ==> asked_for(
            task,
            query,
        ) == not_older(task, a@)),
        query.status matches Some(s) ==> (query.status_timestamp_after matches Some(a) ==> (
        has_status(task, s@) == Ok::<bool, ErrorView>(true) ==> asked_for(task, query) == not_older(
            task,
            a@,
        ))),
        query.status matches Some(s) ==> has_status(task, s@) == Ok::<bool, ErrorView>(false)
            ==> asked_for(task, query) == Ok::<bool, ErrorView>(false),
        query.status matches Some(s) ==> (has_status(task, s@) matches Err(e) ==> asked_for(
            task,
            query,
        ) == Err::<bool, ErrorView>(e)),
{
}

/// Of the tasks exactly those that are asked for are listed, each once and in order.
pub proof fn lists_hold_what_is_asked_for(
    tasks: Seq<TaskView>,
    task: TaskView,
    query: ListTasksQuery,
)
    ensures
        listed(Seq::empty(), query) == Ok::<Seq<TaskView>, ErrorView>(Seq::empty()),
        match (listed(tasks, query), asked_for(task, query)) {
            (Ok(before), Ok(true)) => listed(tasks.push(task), query) == Ok::<
                Seq<TaskView>,
                ErrorView,
            >(before.push(task)),
            (Ok(before), Ok(false)) => listed(tasks.push(task), query) == Ok::<
                Seq<TaskView>,
                ErrorView,
            >(before),
            (Ok(_), Err(e)) => listed(tasks.push(task), query) == Err::<Seq<TaskView>, ErrorView>(
                e,
            ),
            (Err(e), _) => listed(tasks.push(task), query) == Err::<Seq<TaskView>, ErrorView>(e),
        },
{
    assert(tasks.push(task).drop_last() =~= tasks);
}

/// Without a status and a time every task is listed.
pub proof fn nothing_asked_lists_all(tasks: Seq<TaskView>, query: ListTasksQuery)
    requires
        query.status is None,
        query.status_timestamp_after is None,
    ensures
        listed(tasks, query) == Ok::<Seq<TaskView>, ErrorView>(tasks),
    decreases tasks.len(),
{
    if tasks.len() > 0 {
        nothing_asked_lists_all(tasks.drop_last(), query);
        assert(tasks.drop_last().push(tasks.last()) =~= tasks);
    } else {
        assert(tasks =~= Seq::<TaskView>::empty());
    }
}

/// Of the tasks those of the conversation that is asked for are looked at, in order; all where
/// none is asked for.
pub proof fn conversations_hold_their_tasks(
    tasks: Seq<TaskView>,
    task: TaskView,
    context_id: Option<String>,
)
    ensures
        in_context(Seq::empty(), context_id) == Seq::<TaskView>::empty(),
        context_id is None ==> in_context(tasks.push(task), context_id) == in_context(
            tasks,
            context_id,
        ).push(task),
        context_id matches Some(id) ==> id@ == task.context_id@ ==> in_context(
            tasks.push(task),
            context_id,
        ) == in_context(tasks, context_id).push(task),
        context_id matches Some(id) ==> id@ != task.context_id@ ==> in_context(
            tasks.push(task),
            context_id,
        ) == in_context(tasks, context_id),
{
    assert(tasks.push(task).drop_last() =~= tasks);
}

/// The first ten thousand tasks of a conversation are looked at, all of them where there are no
/// more.
pub proof fn ten_thousand_tasks_are_looked_at(tasks: Seq<TaskView>, query: ListTasksQuery)
    ensures
        in_context(tasks, query.context_id).len() <= 10_000 ==> looked_at(tasks, query)
            == in_context(tasks, query.context_id),
        in_context(tasks, query.context_id).len() > 10_000 ==> looked_at(tasks, query).len()
            == 10_000 && forall|i: int|
            0 <= i < 10_000 ==> #[trigger] looked_at(tasks, query)[i] == in_context(
                tasks,
                query.context_id,
            )[i],
{
}

/// A page holds as many tasks as asked for, at least one and at most a hundred, and fifty where
/// nothing is said.
pub proof fn pages_have_the_size_asked_for(query: ListTasksQuery)
    ensures
        query.page_size is None ==> page_size_of(query) == 50,
        query.page_size matches Some(n) ==> 1 <= n <= 100 ==> page_size_of(query) == n,
        query.page_size matches Some(n) ==> n < 1 ==> page_size_of(query) == 1,
        query.page_size matches Some(n) ==> n > 100 ==> page_size_of(query) == 100,
{
}

/// A page begins at the number that is its token, and at the first task without a token or
/// with one that is no number.
pub proof fn pages_begin_at_their_token(query: ListTasksQuery, n: nat)
    requires
        n <= usize::MAX,
    ensures
        query.page_token is None ==> page_start(query) == 0,
        query.page_token matches Some(t) ==> t@ == decimal(n) ==> page_start(query) == n,
        query.page_token matches Some(t) ==> t@.len() == 0 ==> page_start(query) == 0,
        query.page_token matches Some(t) ==> t@.len() > 0 && t@[0] != '+' && !('0' <= t@[0] <= '9')
            ==> page_start(query) == 0,
{
    match query.page_token {
        Some(t) => {
            numbers_are_read(n, usize::MAX as nat, t@, 0);
            if t@.len() == 0 {
                assert(t@ =~= Seq::<char>::empty());
            }
        },
        None => {},
    }
}

/// A page holds the tasks from its beginning on, no more than its size and none left out; its
/// token tells where it ends where there are more, and is empty where there are none.
pub proof fn pages_hold_what_follows(tasks: Seq<TaskView>, start: int, size: int, i: int)
    requires
        0 <= start,
        1 <= size,
    ensures
        start >= tasks.len() ==> page(tasks, start, size).len() == 0,
        start < tasks.len() && start + size <= tasks.len() ==> page(tasks, start, size).len()
            == size,
        start < tasks.len() && start + size > tasks.len() ==> page(tasks, start, size).len()
            == tasks.len() - start,
        0 <= i < page(tasks, start, size).len() ==> page(tasks, start, size)[i] == tasks[start + i],
        start + size < tasks.len() ==> next_token(tasks, start, size) == decimal(
            (start + size) as nat,
        ),
        start + size >= tasks.len() ==> next_token(tasks, start, size).len() == 0,
{
}

/// Of a history the last messages are shown, as many as asked for; all where nothing is said or
/// where there are no more.
pub proof fn histories_are_shown_from_their_end(
    history: Seq<Message>,
    length: Option<i32>,
    i: int,
)
    ensures
        length is None ==> last_messages(history, length) == history,
        length matches Some(n) ==> n <= 0 ==> last_messages(history, length).len() == 0,
        length matches Some(n) ==> 0 <= n <= history.len() ==> last_messages(history, length).len()
            == n,
        length matches Some(n) ==> n > history.len() ==> last_messages(history, length) == history,
        0 <= i < last_messages(history, length).len() ==> last_messages(history, length)[i]
            == history[history.len() - last_messages(history, length).len() + i],
{
}

/// A task is shown with everything but what is cut off its history, and without its artifacts
/// unless they are asked for.
pub proof fn tasks_are_shown_as_asked_for(task: TaskView, query: ListTasksQuery, r: TaskView)
    requires
        shown(task, query, r),
    ensures
        r.id == task.id,
        r.context_id == task.context_id,
        r.status == task.status,
        query.history_length is None ==> r.history@ == task.history@,
        query.history_length matches Some(n) ==> 0 <= n <= task.history@.len() ==> r.history@
            == task.history@.skip(task.history@.len() - n),
        query.include_artifacts == Some(true) ==> r.artifacts == task.artifacts,
        query.include_artifacts != Some(true) ==> r.artifacts@.len() == 0,
{
    match query.history_length {
        Some(n) => {
            if 0 <= n <= task.history@.len() {
                assert(r.history@ =~= task.history@.skip(task.history@.len() - n));
            }
        },
        None => {},
    }
}

// ---------------------------------------------------------------------------
// What a client that follows a task is sent
// ---------------------------------------------------------------------------

/// Nothing follows a status that ends the task: completed, failed, rejected or canceled, or one
/// that says nothing. Everything else may be followed by more.
pub proof fn ends_of_tasks_are_last(e: TaskEvent, status: TaskStatus)
    ensures
        e matches TaskEvent::StatusUpdate(u) ==> u.status == Some(status) ==> (is_last(e) <==> (
        status.state == 3 || status.state == 4 || status.state == 5 || status.state == 7
            || status.state == 0)),
        e matches TaskEvent::StatusUpdate(u) ==> u.status is None ==> !is_last(e),
        e is ArtifactUpdate || e is Message ==> !is_last(e),
{
}

/// Every event is sent as what it is.
pub proof fn events_are_sent_as_they_are(e: TaskEvent)
    ensures
        match sent_for(e) {
            StreamResponse::StatusUpdate(u) => e == TaskEvent::StatusUpdate(u),
            StreamResponse::ArtifactUpdate(u) => e == TaskEvent::ArtifactUpdate(u),
            StreamResponse::Message(m) => e == TaskEvent::Message(m),
            StreamResponse::Task(_) => false,
        },
{
}

/// The events have come to an end where nothing follows one of them.
pub proof fn events_end_with_one_that_is_last(events: Seq<TaskEvent>, i: int)
    ensures
        0 <= i < events.len() && is_last(events[i]) ==> has_last(events),
        has_last(events) ==> up_to_last(events).len() > 0 && is_last(up_to_last(events).last()),
        !has_last(events) ==> up_to_last(events) == events,
    decreases events.len(),
{
    if events.len() > 0 {
        let rest = events.skip(1);
        events_end_with_one_that_is_last(rest, i - 1);
        if is_last(events[0]) {
            assert(has_last(events));
        } else {
            assert(up_to_last(events) == seq![events[0]] + up_to_last(rest));
            if has_last(events) {
                let k = choose|k: int| 0 <= k < events.len() && is_last(#[trigger] events[k]);
                assert(rest[k - 1] == events[k]);
                assert(has_last(rest));
                assert(up_to_last(events).last() == up_to_last(rest).last());
            } else {
                if has_last(rest) {
                    let k = choose|k: int| 0 <= k < rest.len() && is_last(#[trigger] rest[k]);
                    assert(events[k + 1] == rest[k]);
                }
                assert(seq![events[0]] + rest =~= events);
            }
        }
    } else {
        assert(up_to_last(events) =~= events);
    }
}

/// A client is sent the events from the first one on, up to and with the first after which
/// nothing follows, and all of them where there is none.
pub proof fn events_are_sent_up_to_the_last(events: Seq<TaskEvent>, i: int)
    ensures
        up_to_last(events).len() <= events.len(),
        0 <= i < up_to_last(events).len() ==> up_to_last(events)[i] == events[i],
        0 <= i < up_to_last(events).len() - 1 ==> !is_last(events[i]),
        up_to_last(events).len() < events.len() ==> up_to_last(events).len() > 0 && is_last(
            up_to_last(events).last(),
        ),
    decreases events.len(),
{
    if events.len() > 0 && !is_last(events[0]) {
        let rest = events.skip(1);
        events_are_sent_up_to_the_last(rest, i - 1);
        assert(up_to_last(events) == seq![events[0]] + up_to_last(rest));
        if 0 < i < up_to_last(events).len() {
            assert(up_to_last(events)[i] == up_to_last(rest)[i - 1]);
        }
        if up_to_last(rest).len() > 0 {
            assert(up_to_last(events).last() == up_to_last(rest).last());
        }
    }
}

// ---------------------------------------------------------------------------
// Calls
// ---------------------------------------------------------------------------

/// Each method has its name, and there are no others.
pub proof fn methods_have_their_names(name: Seq<char>, m: RpcMethod)
    ensures
        method_named("SendMessage"@) == Some(RpcMethod::SendMessage),
        method_named("SendStreamingMessage"@) == Some(RpcMethod::SendStreamingMessage),
        method_named("GetTask"@) == Some(RpcMethod::GetTask),
        method_named("CancelTask"@) == Some(RpcMethod::CancelTask),
        method_named("SubscribeToTask"@) == Some(RpcMethod::SubscribeToTask),
        method_named("GetExtendedAgentCard"@) == Some(RpcMethod::GetExtendedAgentCard),
        method_named(name) == Some(m) ==> match m {
            RpcMethod::SendMessage => name == "SendMessage"@,
            RpcMethod::SendStreamingMessage => name == "SendStreamingMessage"@,
            RpcMethod::GetTask => name == "GetTask"@,
            RpcMethod::CancelTask => name == "CancelTask"@,
            RpcMethod::SubscribeToTask => name == "SubscribeToTask"@,
            RpcMethod::GetExtendedAgentCard => name == "GetExtendedAgentCard"@,
        },
{
    reveal_strlit("SendMessage");
    reveal_strlit("SendStreamingMessage");
    reveal_strlit("GetTask");
    reveal_strlit("CancelTask");
    reveal_strlit("SubscribeToTask");
    reveal_strlit("GetExtendedAgentCard");
    assert("SendMessage"@.len() == 11);
    assert("SendStreamingMessage"@.len() == 20);
    assert("GetTask"@.len() == 7);
    assert("CancelTask"@.len() == 10);
    assert("SubscribeToTask"@.len() == 15);
    assert("GetExtendedAgentCard"@.len() == 20);
    assert("SendStreamingMessage"@[0] == 'S');
    assert("GetExtendedAgentCard"@[0] == 'G');
}

/// The identifier of a request goes back as it came: a text as that text, a number as that
/// number, and none as null.
pub proof fn identifiers_go_back(id: Option<JsonRpcId>)
    ensures
        id matches Some(JsonRpcId::String(s)) ==> id_json(id) == Json::Text(s@),
        id matches Some(JsonRpcId::Integer(n)) ==> match id_json(id) {
            Json::Number(JsonNumber::PosInt(m)) => m as int == n as int,
            Json::Number(JsonNumber::NegInt(m)) => m == n && n < 0,
            _ => false,
        },
        id == Some(JsonRpcId::Null) ==> id_json(id) == Json::Null,
        id is None ==> id_json(id) == Json::Null,
{
}

/// A path ends with a text exactly where it is made of something and that text, and is then
/// left without it.
pub proof fn paths_end_with_what_they_are_made_of(path: Seq<char>, task: Seq<char>, end: Seq<char>)
    ensures
        ends_with(task + end, end),
        (task + end).take((task + end).len() - end.len()) == task,
        ends_with(path, end) ==> path == path.take(path.len() - end.len()) + end,
{
    assert((task + end).skip((task + end).len() - end.len()) =~= end);
    assert((task + end).take((task + end).len() - end.len()) =~= task);
    if ends_with(path, end) {
        assert(path =~= path.take(path.len() - end.len()) + path.skip(path.len() - end.len()));
    }
}

// ---------------------------------------------------------------------------
// The developer's view
// ---------------------------------------------------------------------------

/// Each status is a change from the one before it to its own: told by the names of both, with
/// its own time or, where it has none that can be written, with the present one. The first is
/// caused by the request where the task is submitted or at work; work after a wait for input is
/// caused by the input; all else is an update.
pub proof fn every_status_is_a_change(
    events: Seq<TaskEvent>,
    e: TaskEvent,
    status: TaskStatus,
    now: Seq<char>,
)
    requires
        e matches TaskEvent::StatusUpdate(u) && u.status == Some(status),
    ensures
        transitions_of(Seq::empty(), now) == Seq::<TransitionModel>::empty(),
        last_state(events.push(e)) == Some(status.state),
        transitions_of(events.push(e), now).len() == transitions_of(events, now).len() + 1,
        transitions_of(events.push(e), now).drop_last() == transitions_of(events, now),
        ({
            let t = transitions_of(events.push(e), now).last();
            let before = last_state(events);
            &&& before is None ==> t.from_state is None
            &&& forall|s: TaskState|
                before == Some(#[trigger] protocol_number(s) as i32) ==> t.from_state == Some(
                    s.name(),
                )
            &&& forall|s: TaskState|
                status.state == #[trigger] protocol_number(s) ==> t.to_state == s.name()
            &&& !(0 <= status.state <= 8) ==> t.to_state == TaskState::Unspecified.name()
            &&& status.timestamp is None ==> t.timestamp == now
            &&& status.timestamp matches Some(at) ==> 0 <= at.nanos < 1_000_000_000
                && -62_135_596_800 <= at.seconds <= 253_402_300_799 ==> t.timestamp == rfc3339_text(
                at.seconds,
                at.nanos as u32,
            )
            &&& status.timestamp matches Some(at) ==> at.nanos < 0 ==> t.timestamp == now
            &&& before is None && (status.state == 1 || status.state == 2) ==> t.trigger
                == "on_request"@
            &&& before == Some(6i32) && status.state == 2 ==> t.trigger == "on_input_received"@
            &&& status.state != 1 && status.state != 2 ==> t.trigger == "status_update"@
            &&& before is Some && 0 <= before->Some_0 <= 8 && before != Some(6i32) ==> t.trigger
                == "status_update"@
        }),
{
    assert(events.push(e).drop_last() =~= events);
    assert(transitions_of(events.push(e), now).drop_last() =~= transitions_of(events, now));
}

/// An event that brings no status is no change.
pub proof fn other_events_are_no_change(events: Seq<TaskEvent>, e: TaskEvent, now: Seq<char>)
    requires
        e matches TaskEvent::StatusUpdate(u) ==> u.status is None,
    ensures
        transitions_of(events.push(e), now) == transitions_of(events, now),
        last_state(events.push(e)) == last_state(events),
        last_state(Seq::empty()) is None,
{
    assert(events.push(e).drop_last() =~= events);
}

/// The second in which the status of a task came.
pub open spec fn second_of_status(s: UiTaskSummary) -> Option<i64> {
    match s.task.status {
        Some(status) => match status.timestamp {
            Some(t) => Some(t.seconds),
            None => None,
        },
        None => None,
    }
}

/// Tasks stand with the newest first: none before a newer one, and those without a time behind
/// those with one.
pub proof fn newest_tasks_come_first(s: Seq<UiTaskSummary>, i: int, j: int)
    requires
        0 <= i < j < by_time(s).len(),
    ensures
        by_time(s).len() == s.len(),
        by_time(s).to_multiset() =~= s.to_multiset(),
        match (second_of_status(by_time(s)[i]), second_of_status(by_time(s)[j])) {
            (Some(a), Some(b)) => a >= b,
            (None, Some(_)) => false,
            (_, None) => true,
        },
{
    broadcast use vstd::seq_lib::group_to_multiset_ensures;

    ordered_by_time(s);
    assert(by_time(s).to_multiset().len() == s.to_multiset().len());
    assert(not_before(status_second(by_time(s)[i]), status_second(by_time(s)[j])));
}

proof fn lemma_put_keeps_order(s: Seq<UiTaskSummary>, x: UiTaskSummary, k: Option<i64>)
    ensures
        put_by_time(s, x).filter(|y: UiTaskSummary| second_of_status(y) == k) == if second_of_status(
            x,
        ) == k {
            s.filter(|y: UiTaskSummary| second_of_status(y) == k).push(x)
        } else {
            s.filter(|y: UiTaskSummary| second_of_status(y) == k)
        },
    decreases s.len(),
{
    reveal(Seq::filter);
    if s.len() == 0 || not_before(status_second(s.last()), status_second(x)) {
        assert(s.push(x).drop_last() =~= s);
    } else {
        let t = s.drop_last();
        lemma_put_keeps_order(t, x, k);
        assert(put_by_time(t, x).push(s.last()).drop_last() =~= put_by_time(t, x));
    }
}

/// Tasks of the same second keep their order.
pub proof fn equally_old_tasks_keep_their_order(s: Seq<UiTaskSummary>, k: Option<i64>)
    ensures
        by_time(s).filter(|y: UiTaskSummary| second_of_status(y) == k) == s.filter(
            |y: UiTaskSummary| second_of_status(y) == k,
        ),
    decreases s.len(),
{
    reveal(Seq::filter);
    if s.len() > 0 {
        equally_old_tasks_keep_their_order(s.drop_last(), k);
        lemma_put_keeps_order(by_time(s.drop_last()), s.last(), k);
    } else {
        assert(by_time(s) =~= s);
    }
}

// ---------------------------------------------------------------------------
// Addresses and cards
// ---------------------------------------------------------------------------

proof fn lemma_port(host: Seq<char>, port: nat)
    requires
        port <= 65535,
    ensures
        port_of(host.push(':') + decimal(port)) == Some(port),
        split_on(host.push(':') + decimal(port), ':') == split_on(host, ':').push(decimal(port)),
        host.push(':') + decimal(port) != decimal(port),
{
    lemma_decimal_reads_back(port);
    let d = decimal(port);
    assert forall|i: int| 0 <= i < d.len() implies #[trigger] d[i] != ':' by {
        assert(crate::text::is_digit(d[i]));
    }
    pieces_go_on_behind_a_separator(host, ':', d);
    numbers_are_read(port, 65535, d, 0);
}

/// Clients of a server that is bound to all addresses of this machine, or to the machine
/// itself, find it at the local host, at its port.
pub proof fn this_machine_is_the_local_host(port: nat)
    requires
        port <= 65535,
    ensures
        base_url("0.0.0.0"@.push(':') + decimal(port)) == "http://localhost:"@ + decimal(port),
        base_url("127.0.0.1"@.push(':') + decimal(port)) == "http://localhost:"@ + decimal(port),
        base_url("localhost"@.push(':') + decimal(port)) == "http://localhost:"@ + decimal(port),
{
    lemma_port("0.0.0.0"@, port);
    lemma_port("127.0.0.1"@, port);
    lemma_port("localhost"@, port);
    reveal_strlit("0.0.0.0");
    reveal_strlit("127.0.0.1");
    reveal_strlit("localhost");
    reveal_strlit("0.0.0.0:");
    reveal_strlit("127.0.0.1:");
    reveal_strlit("localhost:");
    assert("0.0.0.0"@.push(':') =~= "0.0.0.0:"@);
    assert("127.0.0.1"@.push(':') =~= "127.0.0.1:"@);
    assert("localhost"@.push(':') =~= "localhost:"@);
    texts_stand_where_they_are_put(Seq::empty(), "0.0.0.0:"@, decimal(port));
    texts_stand_where_they_are_put(Seq::empty(), "127.0.0.1:"@, decimal(port));
    texts_stand_where_they_are_put(Seq::empty(), "localhost:"@, decimal(port));
}

/// Clients of a server that is bound to another host find it at that host, at its port.
pub proof fn other_hosts_are_themselves(host: Seq<char>, port: nat)
    requires
        port <= 65535,
        !starts_with(host.push(':') + decimal(port), "0.0.0.0:"@),
        !starts_with(host.push(':') + decimal(port), "127.0.0.1:"@),
        !starts_with(host.push(':') + decimal(port), "localhost:"@),
    ensures
        base_url(host.push(':') + decimal(port)) == "http://"@ + host + ":"@ + decimal(port),
{
    lemma_port(host, port);
    pieces_make_up_the_text(host, ':', 0, 0);
    reveal_strlit(":");
    assert(":"@ =~= seq![':']);
    let address = host.push(':') + decimal(port);
    assert(split_on(address, ':').drop_last() =~= split_on(host, ':'));
}

/// A port alone is one of the local host, and what has no port is the local host.
pub proof fn ports_alone_are_of_the_local_host(address: Seq<char>, port: nat, host: Seq<char>)
    requires
        port <= 65535,
        forall|i: int| 0 <= i < address.len() ==> #[trigger] address[i] != ':',
    ensures
        base_url(decimal(port)) == "http://localhost:"@ + decimal(port),
        address.len() > 0 && address[0] != '+' && !('0' <= address[0] <= '9') ==> base_url(address)
            == "http://localhost"@,
        address.len() > 0 && address[0] != '+' && !('0' <= address[0] <= '9') ==> base_url(
            host.push(':') + address,
        ) == "http://localhost"@,
{
    lemma_decimal_reads_back(port);
    let d = decimal(port);
    assert forall|i: int| 0 <= i < d.len() implies #[trigger] d[i] != ':' by {
        assert(crate::text::is_digit(d[i]));
    }
    pieces_go_on_behind_a_separator(host, ':', d);
    pieces_go_on_behind_a_separator(host, ':', address);
    numbers_are_read(port, 65535, d, 0);
    numbers_are_read(port, 65535, address, 0);
}

/// Of the address of an agent the slashes at its end are taken off, all of them and nothing
/// else.
pub proof fn slashes_at_the_end_are_taken_off(url: Seq<char>, slashes: Seq<char>)
    requires
        url.len() > 0 ==> url.last() != '/',
        forall|i: int| 0 <= i < slashes.len() ==> #[trigger] slashes[i] == '/',
    ensures
        without_slashes(url + slashes) == url,
    decreases slashes.len(),
{
    if slashes.len() > 0 {
        let s = slashes.drop_last();
        assert forall|i: int| 0 <= i < s.len() implies #[trigger] s[i] == '/' by {
            assert(s[i] == slashes[i]);
        }
        assert((url + slashes).last() == slashes[slashes.len() - 1]);
        assert((url + slashes).drop_last() =~= url + s);
        slashes_at_the_end_are_taken_off(url, s);
    } else {
        assert(url + slashes =~= url);
    }
}

/// An agent is where it was told to be; otherwise where its server is bound; otherwise at the
/// local host.
pub proof fn agents_are_where_they_were_told_to_be(configured: Option<&str>, bind: Option<&str>)
    ensures
        configured matches Some(url) ==> public_url(configured, bind) == url@,
        configured is None ==> (bind matches Some(address) ==> public_url(configured, bind)
            == base_url(address@)),
        configured is None && bind is None ==> public_url(configured, bind)
            == "http://localhost"@,
{
}

/// A card tells the agent by name, description and version; its two interfaces, for calls and
/// for plain requests, both in version 1.0 of the protocol; that it streams, has an extended
/// card and does not push; that it takes and gives plain text; and each skill, in order, with
/// all that is known of it.
pub proof fn cards_tell_the_agent<H>(
    card: AgentCard,
    agent: AgentDefinition<H>,
    url: Seq<char>,
    i: int,
)
    requires
        is_card(card, agent, url),
    ensures
        card.name@ == agent.name@,
        card.version@ == agent.version@,
        agent.description matches Some(d) ==> card.description@ == d@,
        agent.description is None ==> card.description@.len() == 0,
        card.supported_interfaces@.len() == 2,
        card.supported_interfaces@[0].url@ == url + "/rpc"@,
        card.supported_interfaces@[0].protocol_binding@ == "JSONRPC"@,
        card.supported_interfaces@[0].protocol_version@ == "1.0"@,
        card.supported_interfaces@[0].tenant@.len() == 0,
        card.supported_interfaces@[1].url@ == url,
        card.supported_interfaces@[1].protocol_binding@ == "HTTP+JSON"@,
        card.supported_interfaces@[1].protocol_version@ == "1.0"@,
        card.supported_interfaces@[1].tenant@.len() == 0,
        card.capabilities.streaming,
        !card.capabilities.push_notifications,
        card.capabilities.extended_agent_card,
        texts(card.default_input_modes@) == seq!["text/plain"@],
        texts(card.default_output_modes@) == seq!["text/plain"@],
        card.skills@.len() == agent.skills@.len(),
        0 <= i < agent.skills@.len() ==> {
            let told = card.skills@[i];
            let known = agent.skills@[i].metadata;
            &&& told.id@ == known.id@
            &&& told.name@ == known.name@
            &&& told.description@ == known.description@
            &&& texts(told.tags@) == texts(known.tags@)
            &&& texts(told.examples@) == texts(known.examples@)
            &&& texts(told.input_modes@) == texts(known.input_modes@)
            &&& texts(told.output_modes@) == texts(known.output_modes@)
        },
{
}

// ---------------------------------------------------------------------------
// From the request to the answer
// ---------------------------------------------------------------------------

/// A call in version 2.0 of JSON-RPC is one of the method with that name; a call in another
/// version, or of another name, is refused.
pub proof fn calls_are_of_named_methods(
    version: &str,
    name: &str,
    m: RpcMethod,
    r: Result<RpcMethod, AgentError>,
)
    requires
        call_ensures(json_rpc_method, (version, name), r),
    ensures
        version@ != "2.0"@ ==> r is Err && r->Err_0@ is Validation,
        version@ == "2.0"@ && name@ == "SendMessage"@ ==> r == Ok::<RpcMethod, AgentError>(
            RpcMethod::SendMessage,
        ),
        version@ == "2.0"@ && name@ == "SendStreamingMessage"@ ==> r == Ok::<RpcMethod, AgentError>(
            RpcMethod::SendStreamingMessage,
        ),
        version@ == "2.0"@ && name@ == "GetTask"@ ==> r == Ok::<RpcMethod, AgentError>(
            RpcMethod::GetTask,
        ),
        version@ == "2.0"@ && name@ == "CancelTask"@ ==> r == Ok::<RpcMethod, AgentError>(
            RpcMethod::CancelTask,
        ),
        version@ == "2.0"@ && name@ == "SubscribeToTask"@ ==> r == Ok::<RpcMethod, AgentError>(
            RpcMethod::SubscribeToTask,
        ),
        version@ == "2.0"@ && name@ == "GetExtendedAgentCard"@ ==> r == Ok::<RpcMethod, AgentError>(
            RpcMethod::GetExtendedAgentCard,
        ),
        version@ == "2.0"@ && method_named(name@) is None ==> r is Err
            && r->Err_0@ is NotImplemented,
{
    methods_have_their_names(name@, m);
}

/// An answer is in version 2.0, carries the identifier of the request, and holds either a
/// result or an error.
pub proof fn answers_carry_the_identifier(
    id: Option<JsonRpcId>,
    value: JsonValue,
    success: JsonValue,
    failure: JsonValue,
)
    requires
        call_ensures(build_jsonrpc_success_response, (&id, value), success),
        call_ensures(build_jsonrpc_error_response, (&id, value), failure),
    ensures
        success@.at("jsonrpc"@) == Some(Json::Text("2.0"@)),
        success@.at("result"@) == Some(value@),
        success@.at("error"@) is None,
        success@.at("id"@) == Some(id_json(id)),
        failure@.at("jsonrpc"@) == Some(Json::Text("2.0"@)),
        failure@.at("error"@) == Some(value@),
        failure@.at("result"@) is None,
        failure@.at("id"@) == Some(id_json(id)),
{
    reveal_strlit("jsonrpc");
    reveal_strlit("result");
    reveal_strlit("error");
    reveal_strlit("id");
    assert("jsonrpc"@.len() == 7);
    assert("result"@.len() == 6);
    assert("error"@.len() == 5);
    assert("id"@.len() == 2);
}

/// A path that is a task's identifier is to see the task; one with `:subscribe` behind it is to
/// follow it, and one with `:cancel` behind it to cancel it; nothing else can be posted.
pub proof fn paths_lead_to_their_task(
    path: &str,
    task: Seq<char>,
    read: TaskGetRoute,
    posted: TaskPostRoute,
)
    requires
        call_ensures(task_get_route, (path,), read),
        call_ensures(task_post_route, (path,), posted),
    ensures
        path@ == task + ":subscribe"@ ==> (read matches TaskGetRoute::Subscribe { task_id }
            && task_id@ == task),
        !ends_with(path@, ":subscribe"@) ==> (read matches TaskGetRoute::Get { task_id } && task_id@
            == path@),
        path@ == task + ":cancel"@ ==> (posted matches TaskPostRoute::Cancel { task_id } && task_id@
            == task),
        !ends_with(path@, ":cancel"@) ==> posted is Unsupported,
{
    paths_end_with_what_they_are_made_of(path@, task, ":subscribe"@);
    paths_end_with_what_they_are_made_of(path@, task, ":cancel"@);
}

/// The status filter finds exactly the tasks in the state whose name it is given.
pub proof fn the_filter_finds_tasks_by_name(
    task: TaskView,
    status: &str,
    state: TaskState,
    r: Result<bool, AgentError>,
)
    requires
        spells(status@, protocol_name(state)) || spells(status@, short_name(state)),
        call_ensures(task_state_matches_filter, (&task, status), r),
    ensures
        r == Ok::<bool, AgentError>(
            task.status is Some && task.status->Some_0.state == protocol_number(state),
        ),
{
    let none = Seq::<char>::empty();
    names_select_their_state(task, none, status@, none, state);
    assert(none + status@ + none =~= status@);
}

/// Where nothing in particular is asked for, the first page holds the first fifty tasks, in
/// order, and tells how many there are; where there are more, it tells where to go on.
pub proof fn first_pages_hold_the_first_tasks(
    tasks: Vec<TaskView>,
    query: ListTasksQuery,
    r: Result<ListTasksResponse, AgentError>,
    i: int,
)
    requires
        query.context_id is None,
        query.status is None,
        query.status_timestamp_after is None,
        query.page_size is None,
        query.page_token is None,
        tasks@.len() <= 10_000,
        call_ensures(fetch_v1_tasks, (tasks, &query), r),
    ensures
        r is Ok,
        ({
            let p = r->Ok_0;
            &&& p.page_size == 50
            &&& p.total_size == tasks@.len()
            &&& tasks@.len() <= 50 ==> p.tasks@.len() == tasks@.len() && p.next_page_token@.len()
                == 0
            &&& tasks@.len() > 50 ==> p.tasks@.len() == 50 && p.next_page_token@ == decimal(50)
            &&& 0 <= i < p.tasks@.len() ==> p.tasks@[i].id == tasks@[i].id && p.tasks@[i].status
                == tasks@[i].status
        }),
{
    lemma_all_in_context(tasks@, query.context_id);
    nothing_asked_lists_all(tasks@, query);
    pages_hold_what_follows(tasks@, 0, 50, i);
    pages_have_the_size_asked_for(query);
    pages_begin_at_their_token(query, 0);
    ten_thousand_tasks_are_looked_at(tasks@, query);
}

proof fn lemma_all_in_context(tasks: Seq<TaskView>, context_id: Option<String>)
    requires
        context_id is None,
    ensures
        in_context(tasks, context_id) == tasks,
    decreases tasks.len(),
{
    if tasks.len() > 0 {
        lemma_all_in_context(tasks.drop_last(), context_id);
        assert(tasks.drop_last().push(tasks.last()) =~= tasks);
    } else {
        assert(tasks =~= Seq::<TaskView>::empty());
    }
}

/// Following the events of a task shows every event as it is sent, and the task itself behind
/// them once it has ended.
pub proof fn developers_see_every_event(
    events: Vec<TaskEvent>,
    task: Option<TaskView>,
    r: UiTaskEventsResponse,
    i: int,
)
    requires
        call_ensures(fetch_task_events, (events, task), r),
    ensures
        0 <= i < events@.len() ==> r.events@[i].result == sent_for(events@[i])
            && r.events@[i].is_final == is_last(events@[i]),
        r.task == task,
        has_last(events@) && task is Some ==> r.events@.len() == events@.len() + 1
            && r.events@.last().is_final && r.events@.last().result is Task,
        !has_last(events@) || task is None ==> r.events@.len() == events@.len(),
{
}

/// A body or parameters that can be read are taken as they are, and others are refused with
/// what they were to be and the reason.
pub proof fn what_can_be_read_is_taken<T>(
    read: Result<T, String>,
    what: &str,
    body: Result<T, AgentError>,
    params: Result<T, AgentError>,
)
    requires
        call_ensures(parse_json_body::<T>, (read, what), body),
        call_ensures(parse_rpc_params::<T>, (read, what), params),
    ensures
        read matches Ok(v) ==> body == Ok::<T, AgentError>(v) && params == Ok::<T, AgentError>(v),
        read matches Err(m) ==> body is Err && body->Err_0@ == (ErrorView::Serialization {
            format: "json"@,
            reason: "failed to parse "@ + what@ + ": "@ + m@,
        }),
        read matches Err(m) ==> params is Err && params->Err_0@ == (ErrorView::Serialization {
            format: "json"@,
            reason: "failed to parse params for "@ + what@ + ": "@ + m@,
        }),
{
}

/// News of progress go to the task that works, as a status that is at work and says the
/// message; without a task there are none.
pub proof fn news_tell_that_the_task_works(
    sender: ProgressSender,
    message: Content,
    message_id: String,
    now: Timestamp,
    r: Option<TaskEvent>,
)
    requires
        call_ensures(ProgressSender::send_update, (&sender, message, message_id, now), r),
    ensures
        r is Some <==> sender.auth is Some,
        r matches Some(e) ==> (e@ matches TaskEventModel::StatusUpdate {
            task_id,
            context_id,
            status,
            is_final,
        } && task_id == sender.task_id@ && context_id == sender.context_id@ && !is_final && (
        status matches Some(s) && s.state == 2 && s.timestamp == Some(now) && (
        s.message matches Some(m) && m.content == message@ && m.role == Role::Assistant
            && m.message_id == message_id@))),
{
}

/// A part of an artifact goes to the task that works, and more may follow; without a task it
/// goes nowhere.
pub proof fn parts_of_artifacts_go_to_the_task(
    sender: ProgressSender,
    artifact: Artifact,
    r: Option<TaskEvent>,
)
    requires
        call_ensures(ProgressSender::send_partial_artifact, (&sender, artifact), r),
    ensures
        r is Some <==> sender.auth is Some,
        r matches Some(e) ==> (e@ matches TaskEventModel::ArtifactUpdate {
            task_id,
            context_id,
            artifact: a,
            append,
            last_chunk,
        } && task_id == sender.task_id@ && context_id == sender.context_id@ && a == Some(artifact@)
            && !append && !last_chunk),
{
}

} // verus!
