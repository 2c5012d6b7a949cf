//! Conversations with a model.

pub mod providers;

use crate::text::{join, joined, texts};
use crate::tools::{CallModel, ResponseModel, ToolCall, ToolResponse};
use vstd::prelude::*;

verus! {

/// Who speaks.
#[derive(Debug, Clone, Copy, PartialEq, Eq, Structural)]
pub enum Role {
    System,
    User,
    Assistant,
    Tool,
}

/// Where the bytes of a data part are.
#[derive(Debug)]
pub enum DataSource {
    Base64(String),
    Uri(String),
}

/// A piece of content that is no text.
#[derive(Debug)]
pub struct DataPart {
    pub content_type: String,
    pub source: DataSource,
}

/// A piece of content.
#[derive(Debug)]
pub enum ContentPart {
    Text(String),
    Data(DataPart),
    ToolCall(ToolCall),
    ToolResponse(ToolResponse),
}

/// What is said at one time.
#[derive(Debug)]
pub struct Content {
    pub parts: Vec<ContentPart>,
}

/// Something said in a conversation.
#[derive(Debug)]
pub struct Event {
    pub role: Role,
    pub content: Content,
}

/// A conversation.
#[derive(Debug)]
pub struct Thread {
    pub system: Option<String>,
    pub events: Vec<Event>,
}

/// How many tokens a model used, as far as the provider told.
#[derive(Debug, Clone, Copy, PartialEq, Eq, Structural)]
pub struct TokenUsage {
    pub input_tokens: Option<u32>,
    pub output_tokens: Option<u32>,
    pub total_tokens: Option<u32>,
}

/// The answer of a model.
#[derive(Debug)]
pub struct LlmResponse {
    pub content: Content,
    pub usage: TokenUsage,
}

/// The model of a piece of content.
pub enum PartModel {
    Text(Seq<char>),
    Base64 { content_type: Seq<char>, data: Seq<char> },
    Uri { content_type: Seq<char>, uri: Seq<char> },
    ToolCall(CallModel),
    ToolResponse(ResponseModel),
}

/// The model of something said in a conversation.
pub struct EventModel {
    pub role: Role,
    pub content: Seq<PartModel>,
}

impl View for ContentPart {
    type V = PartModel;

    open spec fn view(&self) -> PartModel {
        match *self {
            ContentPart::Text(s) => PartModel::Text(s@),
            ContentPart::Data(d) => match d.source {
                DataSource::Base64(data) => PartModel::Base64 {
                    content_type: d.content_type@,
                    data: data@,
                },
                DataSource::Uri(uri) => PartModel::Uri {
                    content_type: d.content_type@,
                    uri: uri@,
                },
            },
            ContentPart::ToolCall(c) => PartModel::ToolCall(c@),
            ContentPart::ToolResponse(t) => PartModel::ToolResponse(t@),
        }
    }
}

/// The models of a row of parts.
pub open spec fn part_models(v: Seq<ContentPart>) -> Seq<PartModel> {
    Seq::new(v.len(), |i: int| v[i]@)
}

impl View for Content {
    type V = Seq<PartModel>;

    open spec fn view(&self) -> Seq<PartModel> {
        part_models(self.parts@)
    }
}

impl View for Event {
    type V = EventModel;

    open spec fn view(&self) -> EventModel {
        EventModel { role: self.role, content: self.content@ }
    }
}

/// The models of a row of events.
pub open spec fn event_models(v: Seq<Event>) -> Seq<EventModel> {
    Seq::new(v.len(), |i: int| v[i]@)
}

/// The texts among the parts, in order.
pub open spec fn part_texts(p: Seq<PartModel>) -> Seq<Seq<char>>
    decreases p.len(),
{
    if p.len() == 0 {
        Seq::empty()
    } else {
        match p.last() {
            PartModel::Text(t) => part_texts(p.drop_last()).push(t),
            _ => part_texts(p.drop_last()),
        }
    }
}

/// The texts among the parts, one to a line.
pub open spec fn text_lines(p: Seq<PartModel>) -> Option<Seq<char>> {
    if part_texts(p).len() == 0 {
        None
    } else {
        Some(join(part_texts(p), "\n"@))
    }
}

impl Clone for ContentPart {
    fn clone(&self) -> (r: ContentPart)
        ensures
            r@ == self@,
    {
        match self {
            ContentPart::Text(s) => ContentPart::Text(s.clone()),
            ContentPart::Data(d) => ContentPart::Data(
                DataPart {
                    content_type: d.content_type.clone(),
                    source: match &d.source {
                        DataSource::Base64(s) => DataSource::Base64(s.clone()),
                        DataSource::Uri(s) => DataSource::Uri(s.clone()),
                    },
                },
            ),
            ContentPart::ToolCall(c) => ContentPart::ToolCall(c.clone()),
            ContentPart::ToolResponse(t) => ContentPart::ToolResponse(t.clone()),
        }
    }
}

impl Clone for Content {
    fn clone(&self) -> (r: Content)
        ensures
            r@ == self@,
    {
        let mut parts: Vec<ContentPart> = Vec::new();
        let mut i: usize = 0;
        while i < self.parts.len()
            invariant
                i <= self.parts.len(),
                parts.len() == i,
                forall|j: int| 0 <= j < i ==> (#[trigger] parts@[j])@ == self.parts@[j]@,
            decreases self.parts.len() - i,
        {
            parts.push(self.parts[i].clone());
            i = i + 1;
        }
        proof {
            assert(part_models(parts@) =~= self@);
        }
        Content { parts }
    }
}

impl Default for Content {
    fn default() -> (r: Content)
        ensures
            r@ == Seq::<PartModel>::empty(),
    {
        let c = Content { parts: Vec::new() };
        proof {
            assert(c@ =~= Seq::<PartModel>::empty());
        }
        c
    }
}

impl Content {
    /// Content that is one text.
    pub fn from_text(text: String) -> (r: Content)
        ensures
            r@ == seq![PartModel::Text(text@)],
    {
        let mut parts: Vec<ContentPart> = Vec::new();
        parts.push(ContentPart::Text(text));
        proof {
            assert(part_models(parts@) =~= seq![PartModel::Text(text@)]);
        }
        Content { parts }
    }

    /// Adds a part at the end.
    pub fn push(&mut self, part: ContentPart)
        ensures
            final(self)@ == old(self)@.push(part@),
    {
        let ghost before = self.parts@;
        self.parts.push(part);
        proof {
            assert(part_models(self.parts@) =~= part_models(before).push(part@));
        }
    }

    /// The texts, one to a line; nothing where there is no text.
    pub fn joined_texts(&self) -> (r: Option<String>)
        ensures
            match r {
                Some(s) => text_lines(self@) == Some(s@),
                None => text_lines(self@) is None,
            },
    {
        let mut found: Vec<String> = Vec::new();
        let mut i: usize = 0;
        proof {
            assert(texts(found@) =~= part_texts(self@.take(0)));
        }
        while i < self.parts.len()
            invariant
                i <= self.parts.len(),
                texts(found@) == part_texts(self@.take(i as int)),
            decreases self.parts.len() - i,
        {
            proof {
                assert(self@.take(i + 1).drop_last() =~= self@.take(i as int));
                assert(self@.take(i + 1).last() == self.parts@[i as int]@);
            }
            let ghost before = found@;
            match &self.parts[i] {
                ContentPart::Text(s) => {
                    found.push(s.clone());
                    proof {
                        assert(texts(found@) =~= texts(before).push(s@));
                    }
                },
                _ => {},
            }
            i = i + 1;
        }
        proof {
            assert(self@.take(self@.len() as int) =~= self@);
            assert(texts(found@).len() == found@.len());
        }
        if found.len() == 0 {
            None
        } else {
            Some(joined(&found, "\n"))
        }
    }

    /// The first text.
    pub fn first_text(&self) -> (r: Option<&str>)
        ensures
            match r {
                Some(s) => exists|i: int|
                    0 <= i < self@.len() && #[trigger] self@[i] == PartModel::Text(s@) && forall|j: int|
                        0 <= j < i ==> !((#[trigger] self@[j]) is Text),
                None => forall|j: int| 0 <= j < self@.len() ==> !((#[trigger] self@[j]) is Text),
            },
    {
        let mut i: usize = 0;
        while i < self.parts.len()
            invariant
                i <= self.parts.len(),
                forall|j: int| 0 <= j < i ==> !((#[trigger] self@[j]) is Text),
            decreases self.parts.len() - i,
        {
            match &self.parts[i] {
                ContentPart::Text(s) => {
                    proof {
                        assert(self@[i as int] == PartModel::Text(s@));
                    }
                    return Some(s.as_str());
                },
                _ => {
                    proof {
                        assert(self@[i as int] == self.parts@[i as int]@);
                    }
                },
            }
            i = i + 1;
        }
        None
    }
}

impl Event {
    /// Something that the user said.
    pub fn user(content: Content) -> (r: Event)
        ensures
            r == (Event { role: Role::User, content }),
    {
        Event { role: Role::User, content }
    }
}

impl Thread {
    /// The conversation with one more event at the end.
    pub fn add_event(self, event: Event) -> (r: Thread)
        ensures
            r.system == self.system,
            r.events@ == self.events@.push(event),
    {
        let mut events = self.events;
        events.push(event);
        Thread { system: self.system, events }
    }
}

impl TokenUsage {
    /// Nothing is known.
    pub fn empty() -> (r: TokenUsage)
        ensures
            r == (TokenUsage { input_tokens: None, output_tokens: None, total_tokens: None }),
    {
        TokenUsage { input_tokens: None, output_tokens: None, total_tokens: None }
    }

    /// What is known.
    pub fn partial(
        input_tokens: Option<u32>,
        output_tokens: Option<u32>,
        total_tokens: Option<u32>,
    ) -> (r: TokenUsage)
        ensures
            r == (TokenUsage { input_tokens, output_tokens, total_tokens }),
    {
        TokenUsage { input_tokens, output_tokens, total_tokens }
    }
}

} // verus!
