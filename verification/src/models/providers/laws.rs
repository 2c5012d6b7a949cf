//! Laws of what is sent to the provider and of what is read from its answers.

use crate::errors::{AgentError, ErrorView};
use crate::json::{models, Json, JsonNumber, JsonValue};
use crate::models::providers::encoding::base64_of;
use crate::models::providers::gemini_computer_use::{
    actions_of, said, said_texts, turn_payload, ActionModel, ComputerUseRun, DecisionModel,
    GeminiComputerUseWorker, NextModel, OutcomeModel, ReplyModel, RunModel, RunNext, RunReply,
};
use crate::models::providers::gemini_llm::{
    generate_url, payload, read_response, read_usage, sent_contents, sent_parts, status_verdict,
    system_texts, usage_fits, GeminiLlm,
};
use crate::models::{part_texts, text_lines, Content, EventModel, PartModel, Role};
use crate::text::{decimal, is_blank, join};
use crate::tools::{FunctionDeclaration, ResponseModel};
use std::sync::Arc;
use vstd::prelude::*;

verus! {

// ---------------------------------------------------------------------------
// What is sent
// ---------------------------------------------------------------------------

/// Everything that the user says is sent, part by part and in order: texts, bytes, addresses,
/// calls and answers.
pub proof fn user_parts_are_all_sent(p: Seq<PartModel>, part: PartModel)
    ensures
        sent_parts(Role::User, Seq::empty()) == Seq::<Json>::empty(),
        sent_parts(Role::User, p.push(part)).len() == sent_parts(Role::User, p).len() + 1,
        sent_parts(Role::User, p.push(part)).drop_last() == sent_parts(Role::User, p),
        match part {
            PartModel::Text(t) => sent_parts(Role::User, p.push(part)).last() == Json::Object(
                map!["text"@ => Json::Text(t)],
            ),
            PartModel::Base64 { content_type, data } => sent_parts(
                Role::User,
                p.push(part),
            ).last() == Json::Object(
                map!["inline_data"@ => Json::Object(
                    map!["mime_type"@ => Json::Text(content_type), "data"@ => Json::Text(data)],
                )],
            ),
            PartModel::Uri { content_type, uri } => sent_parts(
                Role::User,
                p.push(part),
            ).last() == Json::Object(
                map!["fileData"@ => Json::Object(
                    map!["mime_type"@ => Json::Text(content_type), "fileUri"@ => Json::Text(uri)],
                )],
            ),
            PartModel::ToolCall(c) => sent_parts(Role::User, p.push(part)).last() == Json::Object(
                map!["functionCall"@ => Json::Object(
                    map!["name"@ => Json::Text(c.name), "args"@ => c.arguments],
                )],
            ),
            PartModel::ToolResponse(r) => sent_parts(Role::User, p.push(part)).last()
                == sent_answer(r),
        },
{
    assert(p.push(part).drop_last() =~= p);
    assert(sent_parts(Role::User, p.push(part)).drop_last() =~= sent_parts(Role::User, p));
}

/// Of what the model said its texts and calls are sent back, a call as it came where it came
/// from the provider; nothing else is.
pub proof fn model_parts_are_sent_back(p: Seq<PartModel>, part: PartModel)
    ensures
        sent_parts(Role::Assistant, Seq::empty()) == Seq::<Json>::empty(),
        sent_parts(Role::Assistant, p.push(part)) == match part {
            PartModel::Text(t) => sent_parts(Role::Assistant, p).push(
                Json::Object(map!["text"@ => Json::Text(t)]),
            ),
            PartModel::ToolCall(c) => match c.provider_metadata {
                Some(raw) => sent_parts(Role::Assistant, p).push(raw),
                None => sent_parts(Role::Assistant, p).push(
                    Json::Object(
                        map!["functionCall"@ => Json::Object(
                            map!["name"@ => Json::Text(c.name), "args"@ => c.arguments],
                        )],
                    ),
                ),
            },
            _ => sent_parts(Role::Assistant, p),
        },
{
    assert(p.push(part).drop_last() =~= p);
}

/// The answer of a tool as it is sent: under the name it was called by, with its data where it
/// succeeded and with its error where it failed.
pub open spec fn sent_answer(r: ResponseModel) -> Json {
    let content = match (r.result.success, r.result.error_message) {
        (true, _) => r.result.data,
        (false, Some(m)) => Json::Object(map!["error"@ => Json::Text(m)]),
        (false, None) => Json::Object(map!["error"@ => Json::Text("Unknown error"@)]),
    };
    Json::Object(
        map!["functionResponse"@ => Json::Object(
            map![
                "name"@ => Json::Text(r.tool_call_id),
                "response"@ => Json::Object(
                    map!["name"@ => Json::Text(r.tool_call_id), "content"@ => content],
                ),
            ],
        )],
    )
}

/// The answers of tools are sent, and a call as it came where it came from the provider; texts
/// and data of a tool are not sent.
pub proof fn tool_answers_are_sent(p: Seq<PartModel>, part: PartModel)
    ensures
        sent_parts(Role::Tool, Seq::empty()) == Seq::<Json>::empty(),
        sent_parts(Role::Tool, p.push(part)) == match part {
            PartModel::ToolResponse(r) => sent_parts(Role::Tool, p).push(sent_answer(r)),
            PartModel::ToolCall(c) => match c.provider_metadata {
                Some(raw) => sent_parts(Role::Tool, p).push(raw),
                None => sent_parts(Role::Tool, p).push(
                    Json::Object(
                        map!["functionCall"@ => Json::Object(
                            map!["name"@ => Json::Text(c.name), "args"@ => c.arguments],
                        )],
                    ),
                ),
            },
            _ => sent_parts(Role::Tool, p),
        },
{
    assert(p.push(part).drop_last() =~= p);
}

/// Each thing said is sent as one message behind those before it: what the model said in the
/// role of the model, all else in that of the user. What has no parts to send is no message,
/// and what the system said is none either.
pub proof fn messages_are_sent_in_order(before: Seq<Json>, events: Seq<EventModel>, e: EventModel)
    ensures
        sent_contents(before, Seq::empty()) == before,
        e.role == Role::System ==> sent_contents(before, events.push(e)) == sent_contents(
            before,
            events,
        ),
        e.role != Role::System && sent_parts(e.role, e.content).len() == 0 ==> sent_contents(
            before,
            events.push(e),
        ) == sent_contents(before, events),
        e.role != Role::System && sent_parts(e.role, e.content).len() > 0 ==> sent_contents(
            before,
            events.push(e),
        ) == sent_contents(before, events).push(
            Json::Object(
                map![
                    "role"@ => Json::Text(if e.role == Role::Assistant { "model"@ } else { "user"@ }),
                    "parts"@ => Json::Array(sent_parts(e.role, e.content)),
                ],
            ),
        ),
{
    assert(events.push(e).drop_last() =~= events);
    if e.role == Role::System {
        lemma_nothing_of_the_system(e.content);
    }
}

proof fn lemma_nothing_of_the_system(p: Seq<PartModel>)
    ensures
        sent_parts(Role::System, p).len() == 0,
    decreases p.len(),
{
    if p.len() > 0 {
        lemma_nothing_of_the_system(p.drop_last());
    }
}

/// What the user says in one text is sent as a message of that text.
pub proof fn what_the_user_says_is_sent(before: Seq<Json>, events: Seq<EventModel>, text: Seq<char>)
    ensures
        sent_contents(
            before,
            events.push(EventModel { role: Role::User, content: seq![PartModel::Text(text)] }),
        ) == sent_contents(before, events).push(
            Json::Object(
                map![
                    "role"@ => Json::Text("user"@),
                    "parts"@ => Json::Array(seq![Json::Object(map!["text"@ => Json::Text(text)])]),
                ],
            ),
        ),
{
    let e = EventModel { role: Role::User, content: seq![PartModel::Text(text)] };
    messages_are_sent_in_order(before, events, e);
    user_parts_are_all_sent(Seq::empty(), PartModel::Text(text));
    assert(seq![PartModel::Text(text)] =~= Seq::<PartModel>::empty().push(PartModel::Text(text)));
    assert(sent_parts(Role::User, e.content) =~= seq![
        Json::Object(map!["text"@ => Json::Text(text)]),
    ]);
}

/// The texts among parts stand one to a line, and nothing else is among them.
pub proof fn texts_stand_one_to_a_line(p: Seq<PartModel>, part: PartModel)
    ensures
        text_lines(Seq::empty()) is None,
        match part {
            PartModel::Text(t) => text_lines(p.push(part)) == Some(
                match text_lines(p) {
                    Some(before) => before + "\n"@ + t,
                    None => t,
                },
            ),
            _ => text_lines(p.push(part)) == text_lines(p),
        },
{
    assert(p.push(part).drop_last() =~= p);
    match part {
        PartModel::Text(t) => {
            assert(part_texts(p.push(part)).drop_last() =~= part_texts(p));
        },
        _ => {},
    }
}

/// What the system says joins the instructions, behind those before it; nothing that anybody
/// else says does.
pub proof fn what_the_system_says_instructs(
    before: Seq<Seq<char>>,
    events: Seq<EventModel>,
    e: EventModel,
)
    ensures
        system_texts(before, Seq::empty()) == before,
        e.role == Role::System && text_lines(e.content) is Some ==> system_texts(
            before,
            events.push(e),
        ) == system_texts(before, events).push(text_lines(e.content)->Some_0),
        e.role == Role::System && text_lines(e.content) is None ==> system_texts(
            before,
            events.push(e),
        ) == system_texts(before, events),
        e.role != Role::System ==> system_texts(before, events.push(e)) == system_texts(
            before,
            events,
        ),
{
    assert(events.push(e).drop_last() =~= events);
}

/// A request holds the messages; the instructions, one to a line, where there are any; the
/// temperature and the limit of tokens where they are set; and every tool by its name, what it
/// does and its parameters. It holds nothing else.
pub proof fn requests_hold_what_is_given(
    system: Option<Seq<char>>,
    events: Seq<EventModel>,
    temperature: Option<Json>,
    max_tokens: Option<u32>,
    tools: Seq<FunctionDeclaration>,
)
    ensures
        ({
            let r = Json::Object(payload(system, events, temperature, max_tokens, tools));
            let given = match system {
                Some(s) => seq![s],
                None => Seq::<Seq<char>>::empty(),
            };
            let told = system_texts(given, events);
            &&& r.at("contents"@) == Some(Json::Array(sent_contents(Seq::empty(), events)))
            &&& r.at("systemInstruction"@) == if told.len() == 0 {
                None
            } else {
                Some(
                    Json::Object(
                        map!["parts"@ => Json::Array(
                            seq![Json::Object(map!["text"@ => Json::Text(join(told, "\n"@))])],
                        )],
                    ),
                )
            }
            &&& r.at("generationConfig"@) == match (temperature, max_tokens) {
                (None, None) => None,
                (Some(t), None) => Some(Json::Object(map!["temperature"@ => t])),
                (None, Some(n)) => Some(
                    Json::Object(
                        map!["maxOutputTokens"@ => Json::Number(JsonNumber::PosInt(n as u64))],
                    ),
                ),
                (Some(t), Some(n)) => Some(
                    Json::Object(
                        map![
                            "temperature"@ => t,
                            "maxOutputTokens"@ => Json::Number(JsonNumber::PosInt(n as u64)),
                        ],
                    ),
                ),
            }
            &&& tools.len() == 0 ==> r.at("tools"@) is None
            &&& tools.len() > 0 ==> declares_all(r.at("tools"@), tools)
            &&& forall|k: Seq<char>|
                r.at(k) is Some ==> k == "contents"@ || k == "systemInstruction"@ || k
                    == "generationConfig"@ || k == "tools"@
        }),
{
    reveal_strlit("contents");
    reveal_strlit("systemInstruction");
    reveal_strlit("generationConfig");
    reveal_strlit("tools");
    reveal_strlit("temperature");
    reveal_strlit("maxOutputTokens");
    assert("contents"@.len() == 8);
    assert("systemInstruction"@.len() == 17);
    assert("generationConfig"@.len() == 16);
    assert("tools"@.len() == 5);
    let none = Map::<Seq<char>, Json>::empty();
    match temperature {
        Some(t) => {
            assert(none.insert("temperature"@, t).contains_key("temperature"@));
        },
        None => {},
    }
    match max_tokens {
        Some(n) => {
            let v = Json::Number(JsonNumber::PosInt(n as u64));
            assert(none.insert("maxOutputTokens"@, v).contains_key("maxOutputTokens"@));
            match temperature {
                Some(t) => {
                    assert(none.insert("temperature"@, t).insert(
                        "maxOutputTokens"@,
                        v,
                    ).contains_key("maxOutputTokens"@));
                },
                None => {},
            }
        },
        None => {},
    }
}

/// The member declares each of the tools, in order.
pub open spec fn declares_all(member: Option<Json>, tools: Seq<FunctionDeclaration>) -> bool {
    match member {
        Some(Json::Array(list)) => list.len() == 1 && match list[0].at(
            "function_declarations"@,
        ) {
            Some(Json::Array(all)) => all.len() == tools.len() && forall|i: int|
                0 <= i < all.len() ==> #[trigger] all[i] == Json::Object(
                    map![
                        "name"@ => Json::Text(tools[i].name@),
                        "description"@ => Json::Text(tools[i].description@),
                        "parameters"@ => tools[i].parameters@,
                    ],
                ),
            _ => false,
        },
        _ => false,
    }
}

/// The address of a model's content starts with the base, names the model and ends with the
/// method.
pub proof fn addresses_name_the_model(base: Seq<char>, model: Seq<char>)
    ensures
        generate_url(base, model) == base + "models/"@ + model + ":generateContent"@,
{
}

// ---------------------------------------------------------------------------
// What comes back
// ---------------------------------------------------------------------------

/// Success is a status from 200 to 299. Refused access is told from too many requests, and
/// either from any other failure, whose message holds the status and what came with it.
pub proof fn statuses_are_told_apart(status: u16, text: Seq<char>, body: Option<Seq<char>>)
    ensures
        status_verdict(status, text, body) is None <==> 200 <= status <= 299,
        status_verdict(status, text, body) == Some(
            ErrorView::LlmAuthentication { provider: "Gemini"@ },
        ) <==> status == 401 || status == 403,
        status_verdict(status, text, body) == Some(
            ErrorView::LlmRateLimit { provider: "Gemini"@ },
        ) <==> status == 429,
        !(200 <= status <= 299) && status != 401 && status != 403 && status != 429
            ==> status_verdict(status, text, body) == Some(
            ErrorView::LlmProvider {
                provider: "Gemini"@,
                message: "HTTP "@ + text + ": "@ + (if body is Some {
                    body->Some_0
                } else {
                    "Unknown error"@
                }),
            },
        ),
{
}

/// The first candidate of an answer has these parts.
pub open spec fn answers_with(body: Json, parts: Seq<Json>) -> bool {
    match body.at("candidates"@) {
        Some(Json::Array(candidates)) => candidates.len() > 0 && match candidates[0].at(
            "content"@,
        ) {
            Some(content) => content.at("parts"@) == Some(Json::Array(parts)),
            None => false,
        },
        _ => false,
    }
}

/// An answer is read part by part. A text that is not blank is taken over; a call of a tool is
/// taken over behind it, with the name it calls, with its arguments, which are null only where
/// it has none, and with the part it came in. A part with neither adds nothing.
pub proof fn answers_are_read_part_by_part(
    shorter: Json,
    longer: Json,
    parts: Seq<Json>,
    part: Json,
    content: Seq<PartModel>,
)
    requires
        answers_with(shorter, parts),
        answers_with(longer, parts.push(part)),
        read_response(shorter) == Ok::<Seq<PartModel>, ErrorView>(content),
    ensures
        ({
            let told = match part.at("text"@) {
                Some(Json::Text(t)) => if is_blank(t) {
                    content
                } else {
                    content.push(PartModel::Text(t))
                },
                _ => content,
            };
            match part.at("functionCall"@) {
                None => read_response(longer) == Ok::<Seq<PartModel>, ErrorView>(told),
                Some(call) => match call.at("name"@) {
                    Some(Json::Text(name)) => match read_response(longer) {
                        Ok(all) => {
                            &&& all.len() == told.len() + 1
                            &&& all.drop_last() == told
                            &&& all.last() is ToolCall
                            &&& all.last()->ToolCall_0.name == name
                            &&& all.last()->ToolCall_0.id == name
                            &&& all.last()->ToolCall_0.provider_metadata == Some(part)
                            &&& call.at("args"@) is Some ==> Some(
                                all.last()->ToolCall_0.arguments,
                            ) == call.at("args"@)
                            &&& call.at("args"@) is None ==> all.last()->ToolCall_0.arguments
                                == Json::Null
                        },
                        Err(_) => false,
                    },
                    _ => read_response(longer) == Err::<Seq<PartModel>, ErrorView>(
                        ErrorView::LlmProvider {
                            provider: "Gemini"@,
                            message: "Missing 'name' in functionCall"@,
                        },
                    ),
                },
            }
        }),
{
    assert(parts.push(part).drop_last() =~= parts);
    match read_response(longer) {
        Ok(all) => {
            if part.at("functionCall"@) is Some {
                let told = match part.at("text"@) {
                    Some(Json::Text(t)) => if is_blank(t) {
                        content
                    } else {
                        content.push(PartModel::Text(t))
                    },
                    _ => content,
                };
                assert(all.drop_last() =~= told);
            }
        },
        Err(_) => {},
    }
}

/// An answer without parts has no content; one that cannot be read stays unread whatever
/// parts it has more; and one without candidates, or whose first candidate has no parts, is
/// refused.
pub proof fn answers_may_be_unreadable(body: Json, longer: Json, parts: Seq<Json>, part: Json)
    ensures
        answers_with(body, Seq::empty()) ==> read_response(body) == Ok::<
            Seq<PartModel>,
            ErrorView,
        >(Seq::empty()),
        answers_with(body, parts) && answers_with(longer, parts.push(part)) && read_response(
            body,
        ) is Err ==> read_response(longer) == read_response(body),
        !(body.at("candidates"@) matches Some(Json::Array(_))) ==> read_response(body) == Err::<
            Seq<PartModel>,
            ErrorView,
        >(
            ErrorView::LlmProvider {
                provider: "Gemini"@,
                message: "Missing or invalid 'candidates' field in response"@,
            },
        ),
        body.at("candidates"@) == Some(Json::Array(Seq::empty())) ==> read_response(body) == Err::<
            Seq<PartModel>,
            ErrorView,
        >(
            ErrorView::LlmProvider {
                provider: "Gemini"@,
                message: "Empty candidates array in response"@,
            },
        ),
        (body.at("candidates"@) matches Some(Json::Array(c)) && c.len() > 0) && (forall|p: Seq<
            Json,
        >| !answers_with(body, p)) ==> read_response(body) == Err::<Seq<PartModel>, ErrorView>(
            ErrorView::LlmProvider {
                provider: "Gemini"@,
                message: "Missing or invalid 'content.parts' in candidate"@,
            },
        ),
{
    assert(parts.push(part).drop_last() =~= parts);
    match body.at("candidates"@) {
        Some(Json::Array(c)) => {
            if c.len() > 0 {
                match c[0].at("content"@) {
                    Some(content) => match content.at("parts"@) {
                        Some(Json::Array(p)) => {
                            assert(answers_with(body, p));
                        },
                        _ => {},
                    },
                    None => {},
                }
            }
        },
        _ => {},
    }
}

/// A count of tokens as it is reported: the number, but no more than 32 bits hold; nothing
/// where the member is no unsigned integer.
pub open spec fn reported(member: Option<Json>, count: Option<u32>) -> bool {
    match member {
        Some(Json::Number(JsonNumber::PosInt(n))) => match count {
            Some(c) => if n <= 0xffff_ffff {
                c == n
            } else {
                c == 0xffff_ffff
            },
            None => false,
        },
        _ => count is None,
    }
}

/// The usage of an answer: what went in and the total as reported; what came out is what the
/// candidates and the thoughts took together, or what one of them did where the other is not
/// told, and is not told where neither is.
pub proof fn usage_is_as_reported(body: Json, usage: Json, c: Option<u32>, t: Option<u32>)
    requires
        body.at("usageMetadata"@) == Some(usage),
        reported(usage.at("candidatesTokenCount"@), c),
        reported(usage.at("thoughtsTokenCount"@), t),
    ensures
        reported(usage.at("promptTokenCount"@), read_usage(body).input_tokens),
        reported(usage.at("totalTokenCount"@), read_usage(body).total_tokens),
        usage_fits(body) <==> (c is Some && t is Some ==> c->Some_0 + t->Some_0 <= 0xffff_ffff),
        c is None ==> read_usage(body).output_tokens == t,
        t is None ==> read_usage(body).output_tokens == c,
        usage_fits(body) && c is Some && t is Some ==> read_usage(body).output_tokens is Some
            && read_usage(body).output_tokens->Some_0 == c->Some_0 + t->Some_0,
{
}

/// An answer that tells no usage has none.
pub proof fn usage_may_be_untold(body: Json)
    requires
        body.at("usageMetadata"@) is None,
    ensures
        usage_fits(body),
        read_usage(body).input_tokens is None,
        read_usage(body).output_tokens is None,
        read_usage(body).total_tokens is None,
{
}

// ---------------------------------------------------------------------------
// Working on a goal in a browser
// ---------------------------------------------------------------------------

/// A screenshot, as it is sent.
pub open spec fn shown(bytes: Seq<u8>) -> Json {
    Json::Object(
        map!["inline_data"@ => Json::Object(
            map![
                "mime_type"@ => Json::Text("image/png"@),
                "data"@ => Json::Text(base64_of(bytes)),
            ],
        )],
    )
}

/// The work ends where no turn is left.
pub open spec fn turns_are_used_up(max_turns: nat) -> NextModel {
    NextModel::Done(
        Err(
            ErrorView::ResourceExhausted {
                resource: "computer_use_turns"@,
                reason: "reached max_turns ("@ + decimal(max_turns)
                    + ") without a final text response"@,
            },
        ),
    )
}

/// Work begins with the goal and a screenshot in one message of the user, which the model is
/// asked about if there is a turn at all; without the screenshot it ends.
pub proof fn work_begins_with_the_goal(
    goal: Seq<char>,
    max_turns: nat,
    bytes: Seq<u8>,
    reason: Seq<char>,
)
    ensures
        RunModel::start(goal, max_turns).phase is Opening,
        ({
            let (run, next) = RunModel::start(goal, max_turns).step(
                ReplyModel::Screenshot(Ok(bytes)),
            );
            &&& run.goal == goal
            &&& run.max_turns == max_turns
            &&& run.turn == 0
            &&& run.contents == seq![
                Json::Object(
                    map![
                        "role"@ => Json::Text("user"@),
                        "parts"@ => Json::Array(
                            seq![Json::Object(map!["text"@ => Json::Text(goal)]), shown(bytes)],
                        ),
                    ],
                ),
            ]
            &&& max_turns > 0 ==> next is CallApi && run.phase is Calling
            &&& max_turns == 0 ==> next == turns_are_used_up(0) && run.phase is Ended
        }),
        RunModel::start(goal, max_turns).step(ReplyModel::Screenshot(Err(reason))).1
            == NextModel::Done(
            Err(
                ErrorView::Internal {
                    component: "computer_use_handler"@,
                    reason: "initial screenshot failed: "@ + reason,
                },
            ),
        ),
{
    let (run, next) = RunModel::start(goal, max_turns).step(ReplyModel::Screenshot(Ok(bytes)));
    assert(run.contents =~= seq![
        Json::Object(
            map![
                "role"@ => Json::Text("user"@),
                "parts"@ => Json::Array(
                    seq![Json::Object(map!["text"@ => Json::Text(goal)]), shown(bytes)],
                ),
            ],
        ),
    ]);
}

/// The content of the first candidate of an answer is this.
pub open spec fn answers_in(body: Json, content: Json) -> bool {
    match body.at("candidates"@) {
        Some(Json::Array(candidates)) => candidates.len() > 0 && candidates[0].at("content"@)
            == Some(content),
        _ => false,
    }
}

/// What the model said stays in the conversation: whatever it says, its message comes right
/// behind those before it. Where it asks for actions, the first of them is to be performed;
/// where it asks for none, the work ends with what it said; where what it asks for cannot be
/// read, the work ends with that error.
pub proof fn answers_stay_in_the_conversation(run: RunModel, body: Json, content: Json)
    requires
        run.valid(),
        run.phase is Calling,
        answers_in(body, content),
    ensures
        ({
            let (after, next) = run.step(ReplyModel::Answer(Ok(body)));
            &&& after.contents == run.contents.push(content)
            &&& after.turn == run.turn
            &&& match actions_of(content) {
                Err(e) => next == NextModel::Done(Err(e)) && after.phase is Ended,
                Ok(actions) => if actions.len() == 0 {
                    next == NextModel::Done(Ok(said(content))) && after.phase is Ended
                } else {
                    &&& next == NextModel::Execute(actions[0])
                    &&& after.phase is Acting
                    &&& after.actions == actions
                    &&& after.responses.len() == 0
                },
            }
        }),
{
}

/// An answer without content ends the work, and so does an error in place of an answer.
pub proof fn work_needs_an_answer(run: RunModel, body: Json, e: ErrorView)
    requires
        run.valid(),
        run.phase is Calling,
        forall|content: Json| !answers_in(body, content),
    ensures
        run.step(ReplyModel::Answer(Ok(body))).1 == NextModel::Done(
            Err(
                ErrorView::LlmProvider {
                    provider: "Gemini"@,
                    message: "missing candidates[0].content in Computer Use response"@,
                },
            ),
        ),
        run.step(ReplyModel::Answer(Err(e))).1 == NextModel::Done(Err(e)),
{
    match body.at("candidates"@) {
        Some(Json::Array(c)) => {
            if c.len() > 0 && c[0].at("content"@) is Some {
                assert(answers_in(body, c[0].at("content"@)->Some_0));
            }
        },
        _ => {},
    }
}

/// The conversation only grows, by one message at a time, and the goal and the limit of turns
/// stay as they are.
pub proof fn conversations_only_grow(run: RunModel, reply: ReplyModel)
    requires
        run.valid(),
        run.expects(reply),
    ensures
        run.step(reply).0.goal == run.goal,
        run.step(reply).0.max_turns == run.max_turns,
        run.step(reply).0.contents == run.contents || (run.step(reply).0.contents.len()
            == run.contents.len() + 1 && run.step(reply).0.contents.drop_last() == run.contents),
        run.turn <= run.step(reply).0.turn <= run.turn + 1,
{
    let after = run.step(reply).0.contents;
    if after.len() > run.contents.len() {
        assert(after.drop_last() =~= run.contents);
    }
}

/// Each part that calls for an action adds that action, behind those before it: by its name,
/// with its arguments but for the safety decision. A part that calls for none adds none, and
/// a call without a name cannot be read.
pub proof fn every_call_asks_for_an_action(
    shorter: Json,
    longer: Json,
    parts: Seq<Json>,
    part: Json,
    actions: Seq<ActionModel>,
)
    requires
        shorter.at("parts"@) == Some(Json::Array(parts)),
        longer.at("parts"@) == Some(Json::Array(parts.push(part))),
        actions_of(shorter) == Ok::<Seq<ActionModel>, ErrorView>(actions),
    ensures
        match part.at("functionCall"@) {
            None => actions_of(longer) == Ok::<Seq<ActionModel>, ErrorView>(actions),
            Some(call) => match call.at("name"@) {
                Some(Json::Text(name)) => match actions_of(longer) {
                    Ok(all) => {
                        &&& all.len() == actions.len() + 1
                        &&& all.drop_last() == actions
                        &&& all.last().name == name
                        &&& call.at("args"@) is None ==> all.last().args == Json::Object(
                            Map::empty(),
                        ) && all.last().safety is None
                        &&& call.at("args"@) matches Some(args) ==> asks_safely(args, all.last())
                    },
                    Err(_) => false,
                },
                _ => actions_of(longer) == Err::<Seq<ActionModel>, ErrorView>(
                    ErrorView::LlmProvider {
                        provider: "Gemini"@,
                        message: "missing 'name' in Computer Use functionCall"@,
                    },
                ),
            },
        },
{
    assert(parts.push(part).drop_last() =~= parts);
    let none = Map::<Seq<char>, Json>::empty();
    assert(none.remove("safety_decision"@) =~= none);
    match actions_of(longer) {
        Ok(all) => {
            if part.at("functionCall"@) is Some {
                assert(all.drop_last() =~= actions);
                let call = part.at("functionCall"@)->Some_0;
                match call.at("args"@) {
                    Some(Json::Object(m)) => {
                        if !m.contains_key("safety_decision"@) {
                            assert(m.remove("safety_decision"@) =~= m);
                        }
                    },
                    _ => {},
                }
            }
        },
        Err(_) => {},
    }
}

/// The action has these arguments: each but the safety decision as it is, and the decision by
/// itself, with its explanation, where it gives a verdict.
pub open spec fn asks_safely(args: Json, action: ActionModel) -> bool {
    &&& action.args.at("safety_decision"@) is None
    &&& args.at("safety_decision"@) is None ==> action.args == args && action.safety is None
    &&& forall|key: Seq<char>|
        key != "safety_decision"@ ==> #[trigger] action.args.at(key) == args.at(key)
    &&& args.at("safety_decision"@) matches Some(d) ==> match (
        d.at("decision"@),
        d.at("explanation"@),
    ) {
        (Some(Json::Text(verdict)), Some(Json::Text(why))) => if verdict.len() == 0 {
            action.safety is None
        } else {
            action.safety == Some(DecisionModel { decision: verdict, explanation: why })
        },
        (Some(Json::Text(verdict)), _) => if verdict.len() == 0 {
            action.safety is None
        } else {
            action.safety == Some(DecisionModel { decision: verdict, explanation: Seq::empty() })
        },
        _ => action.safety is None,
    }
}

/// A content without parts asks for nothing and says nothing, and what cannot be read stays
/// unread whatever parts come behind it.
pub proof fn contents_may_ask_for_nothing(content: Json, longer: Json, parts: Seq<Json>, part: Json)
    ensures
        !(content.at("parts"@) matches Some(Json::Array(_))) ==> actions_of(content) == Ok::<
            Seq<ActionModel>,
            ErrorView,
        >(Seq::empty()) && said(content) == Seq::<char>::empty(),
        content.at("parts"@) == Some(Json::Array(Seq::empty())) ==> actions_of(content) == Ok::<
            Seq<ActionModel>,
            ErrorView,
        >(Seq::empty()) && said(content) == Seq::<char>::empty(),
        content.at("parts"@) == Some(Json::Array(parts)) && longer.at("parts"@) == Some(
            Json::Array(parts.push(part)),
        ) && actions_of(content) is Err ==> actions_of(longer) == actions_of(content),
{
    assert(parts.push(part).drop_last() =~= parts);
}

/// What an answer says are the texts of its parts, one right behind the other.
pub proof fn answers_say_all_their_texts(
    shorter: Json,
    longer: Json,
    parts: Seq<Json>,
    part: Json,
)
    requires
        shorter.at("parts"@) == Some(Json::Array(parts)),
        longer.at("parts"@) == Some(Json::Array(parts.push(part))),
    ensures
        match part.at("text"@) {
            Some(Json::Text(t)) => said(longer) == said(shorter) + t,
            _ => said(longer) == said(shorter),
        },
{
    assert(parts.push(part).drop_last() =~= parts);
    match part.at("text"@) {
        Some(Json::Text(t)) => {
            reveal_strlit("");
            let before = said_texts(parts);
            assert(before.push(t).drop_last() =~= before);
            assert(said(longer) =~= said(shorter) + t);
        },
        _ => {},
    }
}

/// How an action is answered: by its name, with the address and a screenshot where it was
/// performed, and with the error where it failed. Where the user had to confirm it, that they
/// did is told.
pub open spec fn answers_action(
    response: Json,
    action: ActionModel,
    outcome: OutcomeModel,
    shot: Result<Seq<u8>, Seq<char>>,
) -> bool {
    match (outcome, shot) {
        (OutcomeModel::Success { url }, Ok(bytes)) => {
            let confirmed = action.safety matches Some(d) && d.decision
                == "require_confirmation"@;
            let told = if confirmed {
                map!["url"@ => Json::Text(url), "safety_acknowledgement"@ => Json::Text("true"@)]
            } else {
                map!["url"@ => Json::Text(url)]
            };
            response == Json::Object(
                map!["functionResponse"@ => Json::Object(
                    map![
                        "name"@ => Json::Text(action.name),
                        "response"@ => Json::Object(told),
                        "parts"@ => Json::Array(seq![shown(bytes)]),
                    ],
                )],
            )
        },
        (OutcomeModel::Error { message }, _) => response == Json::Object(
            map![
                "functionResponse"@ => Json::Object(
                    map![
                        "name"@ => Json::Text(action.name),
                        "response"@ => Json::Object(map!["error"@ => Json::Text(message)]),
                    ],
                ),
                "inline_data"@ => Json::Object(
                    map![
                        "mime_type"@ => Json::Text("image/png"@),
                        "data"@ => Json::Text(
                            base64_of(if shot is Ok { shot->Ok_0 } else { Seq::empty() }),
                        ),
                    ],
                ),
            ],
        ),
        _ => false,
    }
}

/// After an action that was allowed a screenshot is taken, and with it the action is answered,
/// behind those before it. Then comes the next action, in the order in which they were asked
/// for; behind the last one all the answers go to the model in one message of the user, and the
/// next turn begins if there is one.
pub proof fn actions_are_answered_in_order(
    run: RunModel,
    outcome: OutcomeModel,
    shot: Result<Seq<u8>, Seq<char>>,
)
    requires
        run.valid(),
        run.phase is Acting,
        !(outcome is Denied),
        outcome is Success ==> shot is Ok,
    ensures
        ({
            let (mid, wants) = run.step(ReplyModel::Outcome(outcome));
            let (after, next) = mid.step(ReplyModel::Screenshot(shot));
            let n = run.responses.len() as int;
            &&& wants is TakeScreenshot
            &&& mid.expects(ReplyModel::Screenshot(shot))
            &&& after.actions == run.actions
            &&& after.responses.len() == n + 1
            &&& after.responses.drop_last() == run.responses
            &&& answers_action(after.responses.last(), run.actions[n], outcome, shot)
            &&& n + 1 < run.actions.len() ==> {
                &&& next == NextModel::Execute(run.actions[n + 1])
                &&& after.phase is Acting
                &&& after.contents == run.contents
                &&& after.turn == run.turn
            }
            &&& n + 1 == run.actions.len() ==> {
                &&& after.contents == run.contents.push(
                    Json::Object(
                        map![
                            "role"@ => Json::Text("user"@),
                            "parts"@ => Json::Array(after.responses),
                        ],
                    ),
                )
                &&& after.turn == run.turn + 1
                &&& run.turn + 1 < run.max_turns ==> next is CallApi && after.phase is Calling
                &&& run.turn + 1 == run.max_turns ==> next == turns_are_used_up(run.max_turns)
                    && after.phase is Ended
            }
        }),
{
    let mid = run.step(ReplyModel::Outcome(outcome)).0;
    let after = mid.step(ReplyModel::Screenshot(shot)).0;
    assert(after.responses.drop_last() =~= run.responses);
}

/// An action that the user does not allow ends the work, and so does a performed one of which
/// no screenshot can be taken.
pub proof fn work_ends_where_it_may_not_go_on(
    run: RunModel,
    url: Seq<char>,
    reason: Seq<char>,
)
    requires
        run.valid(),
        run.phase is Acting,
    ensures
        run.step(ReplyModel::Outcome(OutcomeModel::Denied { reason })).1 == NextModel::Done(
            Err(ErrorView::SecurityViolation { policy: "computer_use"@, reason }),
        ),
        run.step(ReplyModel::Outcome(OutcomeModel::Success { url })).0.step(
            ReplyModel::Screenshot(Err(reason)),
        ).1 == NextModel::Done(
            Err(
                ErrorView::Internal {
                    component: "computer_use_handler"@,
                    reason: "screenshot after action failed: "@ + reason,
                },
            ),
        ),
{
}

/// The work after these outcomes and the screenshots after them.
pub open spec fn after_outcomes(
    run: RunModel,
    done: Seq<(OutcomeModel, Result<Seq<u8>, Seq<char>>)>,
) -> (RunModel, NextModel)
    decreases done.len(),
{
    if done.len() == 0 {
        (run, NextModel::TakeScreenshot)
    } else {
        after_outcomes(run, done.drop_last()).0.step(ReplyModel::Outcome(done.last().0)).0.step(
            ReplyModel::Screenshot(done.last().1),
        )
    }
}

proof fn lemma_outcomes_so_far(
    run: RunModel,
    done: Seq<(OutcomeModel, Result<Seq<u8>, Seq<char>>)>,
)
    requires
        run.valid(),
        run.phase is Acting,
        run.responses.len() == 0,
        0 < done.len() <= run.actions.len(),
        forall|i: int|
            0 <= i < done.len() ==> !((#[trigger] done[i]).0 is Denied) && (done[i].0 is Success
                ==> done[i].1 is Ok),
    ensures
        ({
            let (after, next) = after_outcomes(run, done);
            &&& after.valid()
            &&& after.actions == run.actions
            &&& after.max_turns == run.max_turns
            &&& after.responses.len() == done.len()
            &&& forall|i: int|
                0 <= i < done.len() ==> answers_action(
                    #[trigger] after.responses[i],
                    run.actions[i],
                    done[i].0,
                    done[i].1,
                )
            &&& done.len() < run.actions.len() ==> after.phase is Acting && after.contents
                == run.contents && after.turn == run.turn
            &&& done.len() == run.actions.len() ==> after.contents == run.contents.push(
                Json::Object(
                    map![
                        "role"@ => Json::Text("user"@),
                        "parts"@ => Json::Array(after.responses),
                    ],
                ),
            ) && after.turn == run.turn + 1 && if run.turn + 1 < run.max_turns {
                next is CallApi
            } else {
                next == turns_are_used_up(run.max_turns)
            }
        }),
    decreases done.len(),
{
    let before = done.drop_last();
    let mid = after_outcomes(run, before).0;
    assert(done[done.len() - 1] == done.last());
    assert forall|i: int| 0 <= i < before.len() implies !((#[trigger] before[i]).0 is Denied) && (
    before[i].0 is Success ==> before[i].1 is Ok) by {
        assert(before[i] == done[i]);
    }
    if before.len() > 0 {
        lemma_outcomes_so_far(run, before);
    }
    actions_are_answered_in_order(mid, done.last().0, done.last().1);
    let after = after_outcomes(run, done).0;
    assert forall|i: int| 0 <= i < done.len() implies answers_action(
        #[trigger] after.responses[i],
        run.actions[i],
        done[i].0,
        done[i].1,
    ) by {
        if i < before.len() {
            assert(before[i] == done[i]);
            assert(after.responses.drop_last()[i] == mid.responses[i]);
        }
    }
}

/// A turn is told whole: the message of the model that asks for actions is followed right away
/// by one message of the user with as many answers, in which each action that was asked for is
/// answered in its place.
pub proof fn every_turn_is_told_whole(
    run: RunModel,
    body: Json,
    content: Json,
    actions: Seq<ActionModel>,
    done: Seq<(OutcomeModel, Result<Seq<u8>, Seq<char>>)>,
)
    requires
        run.valid(),
        run.phase is Calling,
        answers_in(body, content),
        actions_of(content) == Ok::<Seq<ActionModel>, ErrorView>(actions),
        actions.len() > 0,
        done.len() == actions.len(),
        forall|i: int|
            0 <= i < done.len() ==> !((#[trigger] done[i]).0 is Denied) && (done[i].0 is Success
                ==> done[i].1 is Ok),
    ensures
        ({
            let (after, next) = after_outcomes(run.step(ReplyModel::Answer(Ok(body))).0, done);
            &&& after.contents == run.contents.push(content).push(
                Json::Object(
                    map![
                        "role"@ => Json::Text("user"@),
                        "parts"@ => Json::Array(after.responses),
                    ],
                ),
            )
            &&& after.responses.len() == actions.len()
            &&& forall|i: int|
                0 <= i < actions.len() ==> answers_action(
                    #[trigger] after.responses[i],
                    actions[i],
                    done[i].0,
                    done[i].1,
                )
            &&& after.turn == run.turn + 1
            &&& if run.turn + 1 < run.max_turns {
                next is CallApi
            } else {
                next == turns_are_used_up(run.max_turns)
            }
        }),
{
    answers_stay_in_the_conversation(run, body, content);
    lemma_outcomes_so_far(run.step(ReplyModel::Answer(Ok(body))).0, done);
}

/// The request of a turn holds the whole conversation and offers a browser.
pub proof fn turns_send_the_whole_conversation(contents: Seq<Json>)
    ensures
        turn_payload(contents) == Json::Object(
            map![
                "contents"@ => Json::Array(contents),
                "tools"@ => Json::Array(
                    seq![
                        Json::Object(
                            map!["computer_use"@ => Json::Object(
                                map!["environment"@ => Json::Text("ENVIRONMENT_BROWSER"@)],
                            )],
                        ),
                    ],
                ),
            ],
        ),
{
}

/// The work waits for what it asked for, and for nothing else: for a screenshot, for an answer
/// of the model, or for the outcome of an action; behind its end it waits for nothing.
pub proof fn work_waits_for_what_it_asked_for(
    run: RunModel,
    reply: ReplyModel,
    shot: Result<Seq<u8>, Seq<char>>,
    answer: Result<Json, ErrorView>,
    outcome: OutcomeModel,
)
    requires
        run.valid(),
        run.expects(reply),
    ensures
        ({
            let (after, asked) = run.step(reply);
            &&& after.expects(ReplyModel::Screenshot(shot)) <==> asked is TakeScreenshot
            &&& after.expects(ReplyModel::Answer(answer)) <==> asked is CallApi
            &&& after.expects(ReplyModel::Outcome(outcome)) <==> asked is Execute
        }),
        run.phase is Opening ==> run.expects(ReplyModel::Screenshot(shot)),
{
}

// ---------------------------------------------------------------------------
// Calls
// ---------------------------------------------------------------------------

/// The arguments of a tool call are those that the provider sent: an answer whose last part is a
/// call is read with that call last, under its name and with its arguments.
pub proof fn read_calls_keep_their_arguments(
    body: JsonValue,
    parts: Seq<Json>,
    part: Json,
    call: Json,
    name: Seq<char>,
    args: Json,
    r: Result<Content, AgentError>,
)
    requires
        answers_with(body@, parts.push(part)),
        part.at("functionCall"@) == Some(call),
        call.at("name"@) == Some(Json::Text(name)),
        call.at("args"@) == Some(args),
        call_ensures(GeminiLlm::parse_response, (&body,), r),
    ensures
        r matches Ok(content) ==> content@.len() > 0 && (content@.last() matches PartModel::ToolCall(
            c,
        ) && c.name == name && c.arguments == args && c.provider_metadata == Some(part)),
        parts.len() == 0 ==> r is Ok,
{
    let shorter = Json::Object(
        map!["candidates"@ => Json::Array(
            seq![
                Json::Object(
                    map!["content"@ => Json::Object(map!["parts"@ => Json::Array(parts)])],
                ),
            ],
        )],
    );
    assert(answers_with(shorter, parts));
    answers_may_be_unreadable(shorter, body@, parts, part);
    match read_response(shorter) {
        Ok(content) => {
            answers_are_read_part_by_part(shorter, body@, parts, part, content);
        },
        Err(_) => {},
    }
    if parts.len() == 0 {
        assert(parts =~= Seq::<Json>::empty());
    }
}

/// Whatever comes, the messages of the work so far stay, and what the model said comes right
/// behind them.
pub proof fn work_keeps_what_the_model_said(
    run: ComputerUseRun,
    body: JsonValue,
    content: Json,
    r: (ComputerUseRun, RunNext),
)
    requires
        run@.valid(),
        run.phase is Calling,
        answers_in(body@, content),
        call_ensures(ComputerUseRun::step, (run, RunReply::Answer(Ok(body))), r),
    ensures
        models(r.0.contents@) == models(run.contents@).push(content),
        r.0.goal@ == run.goal@,
        r.0.turn == run.turn,
{
    answers_stay_in_the_conversation(run@, body@, content);
    conversations_only_grow(run@, ReplyModel::Answer(Ok(body@)));
    assert(RunReply::Answer(Ok(body))@ == ReplyModel::Answer(Ok(body@)));
    assert(r.0@ == run@.step(ReplyModel::Answer(Ok(body@))).0);
    assert(r.0@.turn == run@.turn);
}

/// A model is told its name and its key and is otherwise set as usual; the key comes from the
/// environment where it is there and not empty.
pub proof fn models_are_set_as_usual(
    model_name: String,
    api_key: String,
    variable: Option<String>,
    made: GeminiLlm,
    found: Result<GeminiLlm, AgentError>,
)
    requires
        call_ensures(GeminiLlm::new, (model_name, api_key), made),
        call_ensures(GeminiLlm::from_env, (model_name, variable), found),
    ensures
        made.model_name@ == model_name@,
        made.api_key@ == api_key@,
        made.base_url@ == "https://generativelanguage.googleapis.com/v1beta/"@,
        made.max_tokens is None,
        made.temperature is None,
        variable is None ==> found is Err && found->Err_0@ == (ErrorView::MissingConfiguration {
            field: "GEMINI_API_KEY"@,
        }),
        variable matches Some(key) ==> key@.len() == 0 ==> found is Err && found->Err_0@ == (
        ErrorView::InvalidConfiguration {
            field: "GEMINI_API_KEY"@,
            reason: "API key cannot be empty"@,
        }),
        variable matches Some(key) ==> key@ == api_key@ && key@.len() > 0 ==> found is Ok
            && found->Ok_0.api_key@ == made.api_key@ && found->Ok_0.model_name@ == made.model_name@
            && found->Ok_0.base_url@ == made.base_url@ && found->Ok_0.max_tokens is None
            && found->Ok_0.temperature is None,
{
}

/// A worker works with the usual model, for at most twenty turns.
pub proof fn workers_work_for_twenty_turns<H>(
    llm: Arc<GeminiLlm>,
    handler: H,
    worker: GeminiComputerUseWorker<H>,
)
    requires
        call_ensures(GeminiComputerUseWorker::<H>::new, (llm, handler), worker),
    ensures
        worker.llm == llm,
        worker.handler == handler,
        worker.model@ == "gemini-2.5-computer-use-preview-10-2025"@,
        worker.max_turns == 20,
{
}

} // verus!
