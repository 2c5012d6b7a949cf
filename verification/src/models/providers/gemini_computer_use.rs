//! Working on a goal in a browser: the model looks at screenshots and asks for actions, a
//! handler takes the screenshots and performs the actions.

use crate::errors::{AgentError, ErrorView};
use crate::json::{
    lemma_models_push, models, object1, object2, Json, JsonMap, JsonValue,
};
use crate::models::providers::encoding::{base64_encode, base64_of};
use crate::models::providers::gemini_llm::{
    gemini_error, generate_content_url, generate_url, inline_data, json_inline_data,
    provider_error, sent_message, text_part, GeminiLlm,
};
use crate::text::{concat2, concat3, decimal, decimal_text, is_empty_text, join, joined, same_text, texts};
use std::sync::Arc;
use vstd::prelude::*;

verus! {

/// An action that the model asks for.
#[derive(Debug)]
pub struct ComputerUseAction {
    pub name: String,
    pub args: JsonValue,
    pub safety_decision: Option<SafetyDecision>,
}

/// What the safety system of the provider says of an action.
#[derive(Debug)]
pub struct SafetyDecision {
    pub decision: String,
    pub explanation: String,
}

/// How an action ended.
#[derive(Debug)]
pub enum ActionOutcome {
    /// It was performed; the page is now at this address.
    Success { url: String },
    /// It failed; the model may try something else.
    Error { message: String },
    /// The user did not allow it; the work ends.
    Denied { reason: String },
}

impl SafetyDecision {
    /// Tells whether the user has to confirm the action.
    #[must_use]
    pub fn requires_confirmation(&self) -> (r: bool)
        ensures
            r == (self.decision@ == "require_confirmation"@),
    {
        same_text(self.decision.as_str(), "require_confirmation")
    }
}

/// The model of a safety decision.
pub struct DecisionModel {
    pub decision: Seq<char>,
    pub explanation: Seq<char>,
}

/// The model of an action.
pub struct ActionModel {
    pub name: Seq<char>,
    pub args: Json,
    pub safety: Option<DecisionModel>,
}

/// The model of an outcome.
pub enum OutcomeModel {
    Success { url: Seq<char> },
    Error { message: Seq<char> },
    Denied { reason: Seq<char> },
}

impl View for SafetyDecision {
    type V = DecisionModel;

    open spec fn view(&self) -> DecisionModel {
        DecisionModel { decision: self.decision@, explanation: self.explanation@ }
    }
}

impl View for ComputerUseAction {
    type V = ActionModel;

    open spec fn view(&self) -> ActionModel {
        ActionModel {
            name: self.name@,
            args: self.args@,
            safety: match self.safety_decision {
                Some(d) => Some(d@),
                None => None,
            },
        }
    }
}

impl View for ActionOutcome {
    type V = OutcomeModel;

    open spec fn view(&self) -> OutcomeModel {
        match *self {
            ActionOutcome::Success { url } => OutcomeModel::Success { url: url@ },
            ActionOutcome::Error { message } => OutcomeModel::Error { message: message@ },
            ActionOutcome::Denied { reason } => OutcomeModel::Denied { reason: reason@ },
        }
    }
}

/// The models of a row of actions.
pub open spec fn action_models(v: Seq<ComputerUseAction>) -> Seq<ActionModel> {
    Seq::new(v.len(), |i: int| v[i]@)
}

impl Clone for ComputerUseAction {
    fn clone(&self) -> (r: ComputerUseAction)
        ensures
            r@ == self@,
    {
        ComputerUseAction {
            name: self.name.clone(),
            args: self.args.clone(),
            safety_decision: match &self.safety_decision {
                Some(d) => Some(
                    SafetyDecision {
                        decision: d.decision.clone(),
                        explanation: d.explanation.clone(),
                    },
                ),
                None => None,
            },
        }
    }
}

// ---------------------------------------------------------------------------
// Reading what the model asks for
// ---------------------------------------------------------------------------

/// The text at `key`, or the empty text.
pub open spec fn text_or_empty(v: Json, key: Seq<char>) -> Seq<char> {
    match v.text_at(key) {
        Some(t) => t,
        None => Seq::empty(),
    }
}

/// The safety decision in the arguments of an action; one without a verdict counts as none.
pub open spec fn safety_of(args: Json) -> Option<DecisionModel> {
    match args.at("safety_decision"@) {
        Some(d) => if text_or_empty(d, "decision"@).len() == 0 {
            None
        } else {
            Some(
                DecisionModel {
                    decision: text_or_empty(d, "decision"@),
                    explanation: text_or_empty(d, "explanation"@),
                },
            )
        },
        None => None,
    }
}

/// The arguments of an action without its safety decision.
pub open spec fn plain_args(args: Json) -> Json {
    match args {
        Json::Object(m) => Json::Object(m.remove("safety_decision"@)),
        other => other,
    }
}

/// The arguments of a call; none are an empty object.
pub open spec fn call_args(call: Json) -> Json {
    match call.at("args"@) {
        Some(a) => a,
        None => Json::Object(Map::empty()),
    }
}

/// The actions that parts ask for: one for each call.
pub open spec fn asked_actions(parts: Seq<Json>) -> Result<Seq<ActionModel>, ErrorView>
    decreases parts.len(),
{
    if parts.len() == 0 {
        Ok(Seq::empty())
    } else {
        match asked_actions(parts.drop_last()) {
            Err(e) => Err(e),
            Ok(before) => match parts.last().at("functionCall"@) {
                None => Ok(before),
                Some(call) => match call.text_at("name"@) {
                    None => Err(provider_error("missing 'name' in Computer Use functionCall"@)),
                    Some(name) => Ok(
                        before.push(
                            ActionModel {
                                name,
                                args: plain_args(call_args(call)),
                                safety: safety_of(call_args(call)),
                            },
                        ),
                    ),
                },
            },
        }
    }
}

/// The actions that the content of an answer asks for.
pub open spec fn actions_of(content: Json) -> Result<Seq<ActionModel>, ErrorView> {
    match content.items_at("parts"@) {
        None => Ok(Seq::empty()),
        Some(parts) => asked_actions(parts),
    }
}

/// The texts of parts, in order.
pub open spec fn said_texts(parts: Seq<Json>) -> Seq<Seq<char>>
    decreases parts.len(),
{
    if parts.len() == 0 {
        Seq::empty()
    } else {
        match parts.last().text_at("text"@) {
            Some(t) => said_texts(parts.drop_last()).push(t),
            None => said_texts(parts.drop_last()),
        }
    }
}

/// What the content of an answer says.
pub open spec fn said(content: Json) -> Seq<char> {
    match content.items_at("parts"@) {
        None => Seq::empty(),
        Some(parts) => join(said_texts(parts), ""@),
    }
}

/// The content of the first candidate of an answer.
pub open spec fn first_content(body: Json) -> Option<Json> {
    match body.items_at("candidates"@) {
        Some(c) => if c.len() > 0 {
            c[0].at("content"@)
        } else {
            None
        },
        None => None,
    }
}

proof fn lemma_error_stays(parts: Seq<Json>, i: int)
    requires
        0 <= i <= parts.len(),
        asked_actions(parts.take(i)) is Err,
    ensures
        asked_actions(parts) == asked_actions(parts.take(i)),
    decreases parts.len() - i,
{
    if i == parts.len() {
        assert(parts.take(i) =~= parts);
    } else {
        assert(parts.take(i + 1).drop_last() =~= parts.take(i));
        lemma_error_stays(parts, i + 1);
    }
}

fn str_or_empty(v: &JsonValue, key: &str) -> (r: String)
    ensures
        r@ == text_or_empty(v@, key@),
{
    match v.str_at(key) {
        Some(t) => t.to_owned(),
        None => {
            let s = String::new();
            proof {
                assert(s@ =~= Seq::<char>::empty());
            }
            s
        },
    }
}

/// Takes the safety decision out of the arguments of an action.
fn split_args(args: JsonValue) -> (r: (JsonValue, Option<SafetyDecision>))
    ensures
        r.0@ == plain_args(args@),
        match r.1 {
            Some(d) => safety_of(args@) == Some(d@),
            None => safety_of(args@) is None,
        },
{
    match args {
        JsonValue::Object(map) => {
            let mut map = map;
            let safety = match map.remove("safety_decision") {
                Some(d) => {
                    let decision = str_or_empty(&d, "decision");
                    let explanation = str_or_empty(&d, "explanation");
                    if is_empty_text(decision.as_str()) {
                        None
                    } else {
                        Some(SafetyDecision { decision, explanation })
                    }
                },
                None => None,
            };
            (JsonValue::Object(map), safety)
        },
        other => (other, None),
    }
}

/// The actions that the content of an answer asks for.
pub fn parse_actions(model_content: &JsonValue) -> (r: Result<Vec<ComputerUseAction>, AgentError>)
    ensures
        match r {
            Ok(v) => actions_of(model_content@) == Ok::<Seq<ActionModel>, ErrorView>(
                action_models(v@),
            ),
            Err(e) => actions_of(model_content@) == Err::<Seq<ActionModel>, ErrorView>(e@),
        },
{
    let mut actions: Vec<ComputerUseAction> = Vec::new();
    proof {
        assert(action_models(actions@) =~= Seq::<ActionModel>::empty());
    }
    let parts = match model_content.array_at("parts") {
        Some(p) => p,
        None => {
            return Ok(actions);
        },
    };
    let ghost all = models(parts@);
    let mut i: usize = 0;
    proof {
        assert(all.take(0) =~= Seq::<Json>::empty());
    }
    while i < parts.len()
        invariant
            i <= parts.len(),
            all == models(parts@),
            actions_of(model_content@) == asked_actions(all),
            asked_actions(all.take(i as int)) == Ok::<Seq<ActionModel>, ErrorView>(
                action_models(actions@),
            ),
        decreases parts.len() - i,
    {
        proof {
            assert(all.take(i + 1).drop_last() =~= all.take(i as int));
            assert(all.take(i + 1).last() == parts@[i as int]@);
        }
        match parts[i].get("functionCall") {
            Some(call) => {
                match call.str_at("name") {
                    Some(name) => {
                        let args = match call.get("args") {
                            Some(a) => a.clone(),
                            None => JsonValue::Object(JsonMap::new()),
                        };
                        let (args, safety_decision) = split_args(args);
                        let ghost before = actions@;
                        let action = ComputerUseAction {
                            name: name.to_owned(),
                            args,
                            safety_decision,
                        };
                        actions.push(action);
                        proof {
                            assert(action_models(actions@) =~= action_models(before).push(action@));
                        }
                    },
                    None => {
                        proof {
                            lemma_error_stays(all, i + 1);
                        }
                        return Err(
                            gemini_error(
                                "missing 'name' in Computer Use functionCall".to_owned(),
                            ),
                        );
                    },
                }
            },
            None => {},
        }
        i = i + 1;
    }
    proof {
        assert(all.take(all.len() as int) =~= all);
    }
    Ok(actions)
}

/// What the content of an answer says.
fn answer_text(content: &JsonValue) -> (r: String)
    ensures
        r@ == said(content@),
{
    let parts = match content.array_at("parts") {
        Some(p) => p,
        None => {
            let s = String::new();
            proof {
                assert(s@ =~= Seq::<char>::empty());
            }
            return s;
        },
    };
    let mut found: Vec<String> = Vec::new();
    let ghost all = models(parts@);
    let mut i: usize = 0;
    proof {
        assert(texts(found@) =~= said_texts(all.take(0)));
    }
    while i < parts.len()
        invariant
            i <= parts.len(),
            all == models(parts@),
            texts(found@) == said_texts(all.take(i as int)),
        decreases parts.len() - i,
    {
        proof {
            assert(all.take(i + 1).drop_last() =~= all.take(i as int));
            assert(all.take(i + 1).last() == parts@[i as int]@);
        }
        match parts[i].str_at("text") {
            Some(t) => {
                let ghost before = found@;
                found.push(t.to_owned());
                proof {
                    assert(texts(found@) =~= texts(before).push(t@));
                }
            },
            None => {},
        }
        i = i + 1;
    }
    proof {
        assert(all.take(all.len() as int) =~= all);
    }
    joined(&found, "")
}

// ---------------------------------------------------------------------------
// The work, as mathematical values
// ---------------------------------------------------------------------------

/// What the work waits for.
pub enum PhaseModel {
    /// The first screenshot.
    Opening,
    /// The answer of the model.
    Calling,
    /// The outcome of an action.
    Acting,
    /// The screenshot after an action.
    Capturing(OutcomeModel),
    /// Nothing.
    Ended,
}

/// The state of the work.
pub struct RunModel {
    pub goal: Seq<char>,
    pub max_turns: nat,
    pub turn: nat,
    pub contents: Seq<Json>,
    pub actions: Seq<ActionModel>,
    pub responses: Seq<Json>,
    pub phase: PhaseModel,
}

/// What is to be done next.
pub enum NextModel {
    TakeScreenshot,
    CallApi,
    Execute(ActionModel),
    Done(Result<Seq<char>, ErrorView>),
}

/// What was waited for has come.
pub enum ReplyModel {
    Screenshot(Result<Seq<u8>, Seq<char>>),
    Answer(Result<Json, ErrorView>),
    Outcome(OutcomeModel),
}

/// A screenshot as a part.
pub open spec fn screenshot_part(bytes: Seq<u8>) -> Json {
    inline_data("image/png"@, base64_of(bytes))
}

/// The first message: the goal and a screenshot.
pub open spec fn opening_message(goal: Seq<char>, bytes: Seq<u8>) -> Json {
    sent_message("user"@, seq![text_part(goal), screenshot_part(bytes)])
}

/// What a performed action is answered with: the address, and the acknowledgement of the
/// safety decision where one was needed.
pub open spec fn success_payload(url: Seq<char>, action: ActionModel) -> Json {
    let m = Map::<Seq<char>, Json>::empty().insert("url"@, Json::Text(url));
    match action.safety {
        Some(d) => if d.decision == "require_confirmation"@ {
            Json::Object(m.insert("safety_acknowledgement"@, Json::Text("true"@)))
        } else {
            Json::Object(m)
        },
        None => Json::Object(m),
    }
}

/// The answer to a performed action.
pub open spec fn success_response(url: Seq<char>, action: ActionModel, bytes: Seq<u8>) -> Json {
    object1(
        "functionResponse"@,
        Json::Object(
            Map::<Seq<char>, Json>::empty().insert("name"@, Json::Text(action.name)).insert(
                "response"@,
                success_payload(url, action),
            ).insert("parts"@, Json::Array(seq![screenshot_part(bytes)])),
        ),
    )
}

/// The answer to a failed action.
pub open spec fn error_response(message: Seq<char>, action: ActionModel, bytes: Seq<u8>) -> Json {
    object2(
        "functionResponse"@,
        object2(
            "name"@,
            Json::Text(action.name),
            "response"@,
            object1("error"@, Json::Text(message)),
        ),
        "inline_data"@,
        object2("mime_type"@, Json::Text("image/png"@), "data"@, Json::Text(base64_of(bytes))),
    )
}

/// An error of the handler.
pub open spec fn handler_error(reason: Seq<char>) -> ErrorView {
    ErrorView::Internal { component: "computer_use_handler"@, reason }
}

impl RunModel {
    /// The work before anything was done.
    pub open spec fn start(goal: Seq<char>, max_turns: nat) -> RunModel {
        RunModel {
            goal,
            max_turns,
            turn: 0,
            contents: Seq::empty(),
            actions: Seq::empty(),
            responses: Seq::empty(),
            phase: PhaseModel::Opening,
        }
    }

    /// What came is what is waited for.
    pub open spec fn expects(self, reply: ReplyModel) -> bool {
        match reply {
            ReplyModel::Screenshot(_) => self.phase is Opening || self.phase is Capturing,
            ReplyModel::Answer(_) => self.phase is Calling,
            ReplyModel::Outcome(_) => self.phase is Acting,
        }
    }

    /// While actions are under way there is one to wait for; a screenshot after an action
    /// follows an action that was allowed.
    pub open spec fn valid(self) -> bool {
        &&& self.turn <= self.max_turns
        &&& (self.phase is Calling ==> self.turn < self.max_turns)
        &&& (self.phase is Acting || self.phase is Capturing) ==> self.turn < self.max_turns
            && self.responses.len() < self.actions.len()
        &&& self.phase is Capturing ==> !(self.phase->Capturing_0 is Denied)
    }

    /// The work has ended.
    pub open spec fn end(self, result: Result<Seq<char>, ErrorView>) -> (RunModel, NextModel) {
        (RunModel { phase: PhaseModel::Ended, ..self }, NextModel::Done(result))
    }

    /// A turn begins, if there is one left.
    pub open spec fn begin_turn(self) -> (RunModel, NextModel) {
        if self.turn < self.max_turns {
            (RunModel { phase: PhaseModel::Calling, ..self }, NextModel::CallApi)
        } else {
            self.end(
                Err(
                    ErrorView::ResourceExhausted {
                        resource: "computer_use_turns"@,
                        reason: "reached max_turns ("@ + decimal(self.max_turns)
                            + ") without a final text response"@,
                    },
                ),
            )
        }
    }

    /// The next action, or the answers to all of them and the next turn.
    pub open spec fn next_action(self) -> (RunModel, NextModel) {
        if self.responses.len() < self.actions.len() {
            (
                RunModel { phase: PhaseModel::Acting, ..self },
                NextModel::Execute(self.actions[self.responses.len() as int]),
            )
        } else {
            (RunModel {
                contents: self.contents.push(sent_message("user"@, self.responses)),
                turn: self.turn + 1,
                ..self
            }).begin_turn()
        }
    }

    /// What follows what came.
    pub open spec fn step(self, reply: ReplyModel) -> (RunModel, NextModel) {
        match (self.phase, reply) {
            (PhaseModel::Opening, ReplyModel::Screenshot(Err(e))) => self.end(
                Err(handler_error("initial screenshot failed: "@ + e)),
            ),
            (PhaseModel::Opening, ReplyModel::Screenshot(Ok(bytes))) => (RunModel {
                contents: self.contents.push(opening_message(self.goal, bytes)),
                ..self
            }).begin_turn(),
            (PhaseModel::Calling, ReplyModel::Answer(Err(e))) => self.end(Err(e)),
            (PhaseModel::Calling, ReplyModel::Answer(Ok(body))) => match first_content(body) {
                None => self.end(
                    Err(
                        provider_error("missing candidates[0].content in Computer Use response"@),
                    ),
                ),
                Some(content) => {
                    let next = RunModel { contents: self.contents.push(content), ..self };
                    match actions_of(content) {
                        Err(e) => next.end(Err(e)),
                        Ok(actions) => if actions.len() == 0 {
                            next.end(Ok(said(content)))
                        } else {
                            (RunModel { actions, responses: Seq::empty(), ..next }).next_action()
                        },
                    }
                },
            },
            (PhaseModel::Acting, ReplyModel::Outcome(OutcomeModel::Denied { reason })) => self.end(
                Err(ErrorView::SecurityViolation { policy: "computer_use"@, reason }),
            ),
            (PhaseModel::Acting, ReplyModel::Outcome(outcome)) => (
                RunModel { phase: PhaseModel::Capturing(outcome), ..self },
                NextModel::TakeScreenshot,
            ),
            (PhaseModel::Capturing(OutcomeModel::Success { url }), ReplyModel::Screenshot(shot)) =>
                match shot {
                Err(e) => self.end(Err(handler_error("screenshot after action failed: "@ + e))),
                Ok(bytes) => (RunModel {
                    responses: self.responses.push(
                        success_response(
                            url,
                            self.actions[self.responses.len() as int],
                            bytes,
                        ),
                    ),
                    ..self
                }).next_action(),
            },
            (PhaseModel::Capturing(OutcomeModel::Error { message }), ReplyModel::Screenshot(shot)) =>
                (RunModel {
                responses: self.responses.push(
                    error_response(
                        message,
                        self.actions[self.responses.len() as int],
                        match shot {
                            Ok(bytes) => bytes,
                            Err(_) => Seq::empty(),
                        },
                    ),
                ),
                ..self
            }).next_action(),
            _ => (self, NextModel::Done(Ok(Seq::empty()))),
        }
    }
}

// ---------------------------------------------------------------------------
// The work
// ---------------------------------------------------------------------------

/// What the work waits for.
#[derive(Debug)]
pub enum Phase {
    Opening,
    Calling,
    Acting,
    Capturing(ActionOutcome),
    Ended,
}

/// Work on a goal under way.
#[derive(Debug)]
pub struct ComputerUseRun {
    pub goal: String,
    pub max_turns: usize,
    pub turn: usize,
    pub contents: Vec<JsonValue>,
    pub actions: Vec<ComputerUseAction>,
    pub responses: Vec<JsonValue>,
    pub phase: Phase,
}

/// What is to be done next.
#[derive(Debug)]
pub enum RunNext {
    TakeScreenshot,
    CallApi,
    Execute(ComputerUseAction),
    Done(Result<String, AgentError>),
}

/// What was waited for has come: a screenshot, the answer of the model, or the outcome of an
/// action.
#[derive(Debug)]
pub enum RunReply {
    Screenshot(Result<Vec<u8>, String>),
    Answer(Result<JsonValue, AgentError>),
    Outcome(ActionOutcome),
}

impl View for Phase {
    type V = PhaseModel;

    open spec fn view(&self) -> PhaseModel {
        match *self {
            Phase::Opening => PhaseModel::Opening,
            Phase::Calling => PhaseModel::Calling,
            Phase::Acting => PhaseModel::Acting,
            Phase::Capturing(o) => PhaseModel::Capturing(o@),
            Phase::Ended => PhaseModel::Ended,
        }
    }
}

impl View for ComputerUseRun {
    type V = RunModel;

    open spec fn view(&self) -> RunModel {
        RunModel {
            goal: self.goal@,
            max_turns: self.max_turns as nat,
            turn: self.turn as nat,
            contents: models(self.contents@),
            actions: action_models(self.actions@),
            responses: models(self.responses@),
            phase: self.phase@,
        }
    }
}

impl View for RunNext {
    type V = NextModel;

    open spec fn view(&self) -> NextModel {
        match *self {
            RunNext::TakeScreenshot => NextModel::TakeScreenshot,
            RunNext::CallApi => NextModel::CallApi,
            RunNext::Execute(a) => NextModel::Execute(a@),
            RunNext::Done(Ok(s)) => NextModel::Done(Ok(s@)),
            RunNext::Done(Err(e)) => NextModel::Done(Err(e@)),
        }
    }
}

impl View for RunReply {
    type V = ReplyModel;

    open spec fn view(&self) -> ReplyModel {
        match *self {
            RunReply::Screenshot(Ok(b)) => ReplyModel::Screenshot(Ok(b@)),
            RunReply::Screenshot(Err(e)) => ReplyModel::Screenshot(Err(e@)),
            RunReply::Answer(Ok(v)) => ReplyModel::Answer(Ok(v@)),
            RunReply::Answer(Err(e)) => ReplyModel::Answer(Err(e@)),
            RunReply::Outcome(o) => ReplyModel::Outcome(o@),
        }
    }
}

fn json_screenshot(bytes: &Vec<u8>) -> (r: JsonValue)
    ensures
        r@ == screenshot_part(bytes@),
{
    let data = base64_encode(bytes);
    json_inline_data("image/png", data.as_str())
}

fn json_success(url: &str, action: &ComputerUseAction, bytes: &Vec<u8>) -> (r: JsonValue)
    ensures
        r@ == success_response(url@, action@, bytes@),
{
    let mut payload = JsonMap::new();
    payload.insert("url".to_owned(), JsonValue::text(url));
    match &action.safety_decision {
        Some(d) => {
            if d.requires_confirmation() {
                payload.insert("safety_acknowledgement".to_owned(), JsonValue::text("true"));
            }
        },
        None => {},
    }
    JsonValue::object1(
        "functionResponse",
        JsonValue::object3(
            "name",
            JsonValue::text(action.name.as_str()),
            "response",
            JsonValue::Object(payload),
            "parts",
            JsonValue::array1(json_screenshot(bytes)),
        ),
    )
}

fn json_error(message: &str, action: &ComputerUseAction, bytes: &Vec<u8>) -> (r: JsonValue)
    ensures
        r@ == error_response(message@, action@, bytes@),
{
    let data = base64_encode(bytes);
    JsonValue::object2(
        "functionResponse",
        JsonValue::object2(
            "name",
            JsonValue::text(action.name.as_str()),
            "response",
            JsonValue::object1("error", JsonValue::text(message)),
        ),
        "inline_data",
        JsonValue::object2(
            "mime_type",
            JsonValue::text("image/png"),
            "data",
            JsonValue::text(data.as_str()),
        ),
    )
}

impl ComputerUseRun {
    /// The work before anything was done. A screenshot is to be taken first.
    pub fn start(goal: &str, max_turns: usize) -> (r: ComputerUseRun)
        ensures
            r@ == RunModel::start(goal@, max_turns as nat),
            r@.valid(),
    {
        let run = ComputerUseRun {
            goal: goal.to_owned(),
            max_turns,
            turn: 0,
            contents: Vec::new(),
            actions: Vec::new(),
            responses: Vec::new(),
            phase: Phase::Opening,
        };
        proof {
            assert(models(run.contents@) =~= Seq::<Json>::empty());
            assert(models(run.responses@) =~= Seq::<Json>::empty());
            assert(action_models(run.actions@) =~= Seq::<ActionModel>::empty());
        }
        run
    }

    fn end(self, result: Result<String, AgentError>) -> (r: (ComputerUseRun, RunNext))
        ensures
            (r.0@, r.1@) == self@.end(
                match result {
                    Ok(s) => Ok(s@),
                    Err(e) => Err(e@),
                },
            ),
    {
        (ComputerUseRun { phase: Phase::Ended, ..self }, RunNext::Done(result))
    }

    fn begin_turn(self) -> (r: (ComputerUseRun, RunNext))
        ensures
            (r.0@, r.1@) == self@.begin_turn(),
    {
        if self.turn < self.max_turns {
            (ComputerUseRun { phase: Phase::Calling, ..self }, RunNext::CallApi)
        } else {
            let n = decimal_text(self.max_turns as u64);
            let reason = concat3(
                "reached max_turns (",
                n.as_str(),
                ") without a final text response",
            );
            self.end(
                Err(
                    AgentError::ResourceExhausted {
                        resource: "computer_use_turns".to_owned(),
                        reason,
                    },
                ),
            )
        }
    }

    fn next_action(self) -> (r: (ComputerUseRun, RunNext))
        requires
            self.turn < self.max_turns,
            self.responses.len() <= self.actions.len(),
        ensures
            (r.0@, r.1@) == self@.next_action(),
    {
        proof {
            assert(models(self.responses@).len() == self.responses@.len());
            assert(action_models(self.actions@).len() == self.actions@.len());
        }
        if self.responses.len() < self.actions.len() {
            let action = self.actions[self.responses.len()].clone();
            proof {
                assert(action_models(self.actions@)[self.responses@.len() as int] == action@);
            }
            (ComputerUseRun { phase: Phase::Acting, ..self }, RunNext::Execute(action))
        } else {
            let mut parts: Vec<JsonValue> = Vec::new();
            let mut i: usize = 0;
            let ghost all = models(self.responses@);
            while i < self.responses.len()
                invariant
                    i <= self.responses.len(),
                    all == models(self.responses@),
                    models(parts@) == all.take(i as int),
                decreases self.responses.len() - i,
            {
                let ghost before = parts@;
                let c = self.responses[i].clone();
                parts.push(c);
                proof {
                    lemma_models_push(before, c);
                    assert(models(parts@) =~= all.take(i + 1));
                }
                i = i + 1;
            }
            proof {
                assert(all.take(all.len() as int) =~= all);
            }
            let message = JsonValue::object2(
                "role",
                JsonValue::text("user"),
                "parts",
                JsonValue::Array(parts),
            );
            let mut contents = self.contents;
            let ghost before = contents@;
            contents.push(message);
            proof {
                lemma_models_push(before, message);
            }
            let next = ComputerUseRun {
                goal: self.goal,
                max_turns: self.max_turns,
                turn: self.turn + 1,
                contents,
                actions: self.actions,
                responses: self.responses,
                phase: self.phase,
            };
            next.begin_turn()
        }
    }

    /// The work with one more message.
    fn with_content(self, message: JsonValue) -> (r: ComputerUseRun)
        ensures
            r@ == (RunModel { contents: self@.contents.push(message@), ..self@ }),
            r.actions == self.actions,
            r.responses == self.responses,
    {
        let mut contents = self.contents;
        let ghost before = contents@;
        contents.push(message);
        proof {
            lemma_models_push(before, message);
        }
        ComputerUseRun {
            goal: self.goal,
            max_turns: self.max_turns,
            turn: self.turn,
            contents,
            actions: self.actions,
            responses: self.responses,
            phase: self.phase,
        }
    }

    /// The work with one more answer to an action.
    fn with_response(self, response: JsonValue) -> (r: ComputerUseRun)
        ensures
            r@ == (RunModel { responses: self@.responses.push(response@), ..self@ }),
            r.responses@.len() == self.responses@.len() + 1,
            r.actions == self.actions,
    {
        let mut responses = self.responses;
        let ghost before = responses@;
        responses.push(response);
        proof {
            lemma_models_push(before, response);
        }
        ComputerUseRun {
            goal: self.goal,
            max_turns: self.max_turns,
            turn: self.turn,
            contents: self.contents,
            actions: self.actions,
            responses,
            phase: self.phase,
        }
    }

    /// The first screenshot has come.
    fn open(self, shot: Result<Vec<u8>, String>) -> (r: (ComputerUseRun, RunNext))
        requires
            self.phase is Opening,
        ensures
            (r.0@, r.1@) == self@.step(RunReply::Screenshot(shot)@),
    {
        match shot {
            Err(e) => {
                let reason = concat2("initial screenshot failed: ", e.as_str());
                self.end(
                    Err(
                        AgentError::Internal {
                            component: "computer_use_handler".to_owned(),
                            reason,
                        },
                    ),
                )
            },
            Ok(bytes) => {
                let message = JsonValue::object2(
                    "role",
                    JsonValue::text("user"),
                    "parts",
                    JsonValue::array2(
                        JsonValue::object1("text", JsonValue::text(self.goal.as_str())),
                        json_screenshot(&bytes),
                    ),
                );
                self.with_content(message).begin_turn()
            },
        }
    }

    /// The answer of the model has come.
    fn read(self, answer: Result<JsonValue, AgentError>) -> (r: (ComputerUseRun, RunNext))
        requires
            self.phase is Calling,
            self@.valid(),
        ensures
            (r.0@, r.1@) == self@.step(RunReply::Answer(answer)@),
    {
        let body = match answer {
            Err(e) => {
                return self.end(Err(e));
            },
            Ok(body) => body,
        };
        let first = match body.array_at("candidates") {
            Some(c) => {
                proof {
                    assert(models(c@).len() == c@.len());
                }
                if c.len() > 0 {
                    proof {
                        assert(models(c@)[0] == c@[0]@);
                    }
                    c[0].get("content")
                } else {
                    None
                }
            },
            None => None,
        };
        let content = match first {
            None => {
                return self.end(
                    Err(
                        gemini_error(
                            "missing candidates[0].content in Computer Use response".to_owned(),
                        ),
                    ),
                );
            },
            Some(content) => content,
        };
        let next = self.with_content(content.clone());
        match parse_actions(content) {
            Err(e) => next.end(Err(e)),
            Ok(actions) => {
                proof {
                    assert(action_models(actions@).len() == actions@.len());
                }
                if actions.len() == 0 {
                    next.end(Ok(answer_text(content)))
                } else {
                    let responses: Vec<JsonValue> = Vec::new();
                    proof {
                        assert(models(responses@) =~= Seq::<Json>::empty());
                    }
                    let acting = ComputerUseRun {
                        goal: next.goal,
                        max_turns: next.max_turns,
                        turn: next.turn,
                        contents: next.contents,
                        actions,
                        responses,
                        phase: next.phase,
                    };
                    acting.next_action()
                }
            },
        }
    }

    /// The outcome of an action has come.
    fn judge(self, outcome: ActionOutcome) -> (r: (ComputerUseRun, RunNext))
        requires
            self.phase is Acting,
        ensures
            (r.0@, r.1@) == self@.step(RunReply::Outcome(outcome)@),
    {
        match outcome {
            ActionOutcome::Denied { reason } => self.end(
                Err(AgentError::SecurityViolation { policy: "computer_use".to_owned(), reason }),
            ),
            other => (
                ComputerUseRun { phase: Phase::Capturing(other), ..self },
                RunNext::TakeScreenshot,
            ),
        }
    }

    /// The screenshot after an action has come.
    fn capture(self, shot: Result<Vec<u8>, String>) -> (r: (ComputerUseRun, RunNext))
        requires
            self.phase is Capturing,
            self@.valid(),
        ensures
            (r.0@, r.1@) == self@.step(RunReply::Screenshot(shot)@),
    {
        proof {
            assert(models(self.responses@).len() == self.responses@.len());
            assert(action_models(self.actions@).len() == self.actions@.len());
            assert(action_models(self.actions@)[self.responses@.len() as int]
                == self.actions@[self.responses@.len() as int]@);
        }
        let action = self.actions[self.responses.len()].clone();
        match &self.phase {
            Phase::Capturing(ActionOutcome::Success { url }) => {
                match shot {
                    Err(e) => {
                        let reason = concat2("screenshot after action failed: ", e.as_str());
                        self.end(
                            Err(
                                AgentError::Internal {
                                    component: "computer_use_handler".to_owned(),
                                    reason,
                                },
                            ),
                        )
                    },
                    Ok(bytes) => {
                        let response = json_success(url.as_str(), &action, &bytes);
                        self.with_response(response).next_action()
                    },
                }
            },
            Phase::Capturing(ActionOutcome::Error { message }) => {
                let bytes = match shot {
                    Ok(bytes) => bytes,
                    Err(_) => {
                        let none: Vec<u8> = Vec::new();
                        proof {
                            assert(none@ =~= Seq::<u8>::empty());
                        }
                        none
                    },
                };
                let response = json_error(message.as_str(), &action, &bytes);
                self.with_response(response).next_action()
            },
            _ => {
                proof {
                    assert(false);
                }
                (self, RunNext::TakeScreenshot)
            },
        }
    }

    /// What follows what came.
    pub fn step(self, reply: RunReply) -> (r: (ComputerUseRun, RunNext))
        requires
            self@.valid(),
            self@.expects(reply@),
        ensures
            (r.0@, r.1@) == self@.step(reply@),
            r.0@.valid(),
    {
        proof {
            step_keeps_valid(self@, reply@);
        }
        match reply {
            RunReply::Screenshot(shot) => {
                if let Phase::Opening = &self.phase {
                    self.open(shot)
                } else {
                    self.capture(shot)
                }
            },
            RunReply::Answer(answer) => self.read(answer),
            RunReply::Outcome(outcome) => self.judge(outcome),
        }
    }

    /// Tells whether what came is what is waited for.
    pub fn is_waiting_for(&self, reply: &RunReply) -> (r: bool)
        ensures
            r == self@.expects(reply@),
    {
        match (&self.phase, reply) {
            (Phase::Opening, RunReply::Screenshot(_)) => true,
            (Phase::Capturing(_), RunReply::Screenshot(_)) => true,
            (Phase::Calling, RunReply::Answer(_)) => true,
            (Phase::Acting, RunReply::Outcome(_)) => true,
            _ => false,
        }
    }
}

// ---------------------------------------------------------------------------
// The worker
// ---------------------------------------------------------------------------

/// Works on goals with a model and a handler.
#[derive(Debug)]
pub struct GeminiComputerUseWorker<H> {
    pub llm: Arc<GeminiLlm>,
    pub handler: H,
    pub model: String,
    pub max_turns: usize,
}

/// The model that is used where none is given.
pub open spec fn default_model() -> Seq<char> {
    "gemini-2.5-computer-use-preview-10-2025"@
}

/// The request for the next turn.
pub open spec fn turn_payload(contents: Seq<Json>) -> Json {
    object2(
        "contents"@,
        Json::Array(contents),
        "tools"@,
        Json::Array(
            seq![
                object1(
                    "computer_use"@,
                    object1("environment"@, Json::Text("ENVIRONMENT_BROWSER"@)),
                ),
            ],
        ),
    )
}

impl<H> GeminiComputerUseWorker<H> {
    /// The model that is used where none is given.
    pub const DEFAULT_MODEL: &'static str = "gemini-2.5-computer-use-preview-10-2025";

    /// A worker with the usual model and at most 20 turns.
    pub fn new(llm: Arc<GeminiLlm>, handler: H) -> (r: GeminiComputerUseWorker<H>)
        ensures
            r.llm == llm,
            r.handler == handler,
            r.model@ == default_model(),
            r.max_turns == 20,
    {
        GeminiComputerUseWorker {
            llm,
            handler,
            model: "gemini-2.5-computer-use-preview-10-2025".to_owned(),
            max_turns: 20,
        }
    }

    /// Sets the model.
    #[must_use]
    pub fn with_model(self, model: String) -> (r: GeminiComputerUseWorker<H>)
        ensures
            r == (GeminiComputerUseWorker { model, ..self }),
    {
        GeminiComputerUseWorker { model, ..self }
    }

    /// Sets the largest number of turns.
    #[must_use]
    pub fn with_max_turns(self, max_turns: usize) -> (r: GeminiComputerUseWorker<H>)
        ensures
            r == (GeminiComputerUseWorker { max_turns, ..self }),
    {
        GeminiComputerUseWorker { max_turns, ..self }
    }

    /// Work on a goal, before anything was done.
    pub fn run(&self, goal: &str) -> (r: ComputerUseRun)
        ensures
            r@ == RunModel::start(goal@, self.max_turns as nat),
            r@.valid(),
    {
        ComputerUseRun::start(goal, self.max_turns)
    }

    /// The address and the payload of the request for the next turn.
    pub fn call_api(&self, contents: &Vec<JsonValue>) -> (r: (String, JsonValue))
        ensures
            r.0@ == generate_url(self.llm.base_url@, self.model@),
            r.1@ == turn_payload(models(contents@)),
    {
        let url = generate_content_url(self.llm.base_url.as_str(), self.model.as_str());
        let mut copies: Vec<JsonValue> = Vec::new();
        let mut i: usize = 0;
        let ghost all = models(contents@);
        while i < contents.len()
            invariant
                i <= contents.len(),
                all == models(contents@),
                models(copies@) == all.take(i as int),
            decreases contents.len() - i,
        {
            let ghost before = copies@;
            let c = contents[i].clone();
            copies.push(c);
            proof {
                lemma_models_push(before, c);
                assert(models(copies@) =~= all.take(i + 1));
            }
            i = i + 1;
        }
        proof {
            assert(all.take(all.len() as int) =~= all);
        }
        let payload = JsonValue::object2(
            "contents",
            JsonValue::Array(copies),
            "tools",
            JsonValue::array1(
                JsonValue::object1(
                    "computer_use",
                    JsonValue::object1("environment", JsonValue::text("ENVIRONMENT_BROWSER")),
                ),
            ),
        );
        (url, payload)
    }
}

impl GeminiLlm {
    /// A worker that works with this model's access, with the usual model and at most 20 turns.
    pub fn computer_use_worker<H>(self: Arc<Self>, handler: H) -> (r: GeminiComputerUseWorker<H>)
        ensures
            r.llm == self,
            r.handler == handler,
            r.model@ == default_model(),
            r.max_turns == 20,
    {
        GeminiComputerUseWorker::new(self, handler)
    }
}

// ---------------------------------------------------------------------------
// Laws
// ---------------------------------------------------------------------------

/// Whatever comes, the work stays in order: its turns stay within the limit, and while actions
/// are under way there is one to wait for.
pub proof fn step_keeps_valid(run: RunModel, reply: ReplyModel)
    requires
        run.valid(),
        run.expects(reply),
    ensures
        run.step(reply).0.valid(),
{
}

/// The model is asked only while a turn is left, the first time before any turn was made, and
/// from then on once for each turn: no more often than there may be turns.
pub proof fn calls_are_bounded(run: RunModel, reply: ReplyModel)
    requires
        run.valid(),
        run.expects(reply),
        run.step(reply).1 is CallApi,
    ensures
        run.step(reply).0.turn < run.max_turns,
        run.step(reply).0.max_turns == run.max_turns,
        run.phase is Opening ==> run.step(reply).0.turn == run.turn,
        !(run.phase is Opening) ==> run.step(reply).0.turn == run.turn + 1,
{
}

/// How often the model is asked while these replies come.
pub open spec fn calls_made(run: RunModel, replies: Seq<ReplyModel>) -> nat
    decreases replies.len(),
{
    if replies.len() == 0 {
        0
    } else {
        let (after, next) = run.step(replies[0]);
        let one: nat = if next is CallApi {
            1
        } else {
            0
        };
        one + calls_made(after, replies.skip(1))
    }
}

/// Each of these replies is waited for when it comes.
pub open spec fn all_expected(run: RunModel, replies: Seq<ReplyModel>) -> bool
    decreases replies.len(),
{
    replies.len() > 0 ==> run.expects(replies[0]) && all_expected(
        run.step(replies[0]).0,
        replies.skip(1),
    )
}

/// How often the model may still be asked.
pub open spec fn calls_left(run: RunModel) -> int {
    match run.phase {
        PhaseModel::Opening => run.max_turns - run.turn,
        PhaseModel::Ended => 0,
        _ => run.max_turns - run.turn - 1,
    }
}

proof fn lemma_calls_left(run: RunModel, replies: Seq<ReplyModel>)
    requires
        run.valid(),
        all_expected(run, replies),
    ensures
        calls_made(run, replies) <= calls_left(run),
    decreases replies.len(),
{
    if replies.len() > 0 {
        step_keeps_valid(run, replies[0]);
        lemma_calls_left(run.step(replies[0]).0, replies.skip(1));
    }
}

/// Whatever comes, in the whole course of the work the model is asked at most as often as there
/// may be turns.
pub proof fn calls_never_exceed_the_turns(
    goal: Seq<char>,
    max_turns: nat,
    replies: Seq<ReplyModel>,
)
    requires
        all_expected(RunModel::start(goal, max_turns), replies),
    ensures
        calls_made(RunModel::start(goal, max_turns), replies) <= max_turns,
{
    lemma_calls_left(RunModel::start(goal, max_turns), replies);
}

/// An action that was denied ends the work, with the reason.
pub proof fn denied_ends_the_work(run: RunModel, reason: Seq<char>)
    requires
        run.valid(),
        run.phase is Acting,
    ensures
        run.step(ReplyModel::Outcome(OutcomeModel::Denied { reason })).1 == NextModel::Done(
            Err(ErrorView::SecurityViolation { policy: "computer_use"@, reason }),
        ),
{
}

/// A performed action is acknowledged as safe exactly when its safety decision called for a
/// confirmation.
pub proof fn acknowledged_when_confirmed(url: Seq<char>, action: ActionModel)
    ensures
        success_payload(url, action).at("safety_acknowledgement"@) is Some == (action.safety is Some
            && action.safety->Some_0.decision == "require_confirmation"@),
{
    reveal_strlit("url");
    reveal_strlit("safety_acknowledgement");
    assert("url"@.len() != "safety_acknowledgement"@.len());
}

} // verus!
