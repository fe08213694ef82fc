//! The conversation data model: messages, their content, and the tool calls
//! an assistant message may carry.

use vstd::prelude::*;

verus! {

/// The speaker of a message.
#[derive(Clone, Copy, PartialEq, Eq, Structural, Debug)]
pub enum Role {
    System,
    User,
    Assistant,
    Tool,
}

/// One part of a multi-part message body: a text fragment or a reference
/// to an image (a data URL or remote URL).
pub enum ContentPart {
    Text(String),
    ImageRef(String),
}

/// A message body: either plain text or an ordered sequence of typed parts.
pub enum MessageContent {
    Text(String),
    Parts(Vec<ContentPart>),
}

/// One tool invocation issued by the assistant: `arguments` is a raw
/// serialized-object string whose structural validity is the tool's concern.
pub struct FunctionCall {
    pub name: String,
    pub arguments: String,
}

/// A tool call paired with the opaque id that later links its result back
/// to the invocation. `kind` is currently always "function".
pub struct ToolCall {
    pub id: String,
    pub kind: String,
    pub function: FunctionCall,
}

/// One entry of the conversation transcript.
pub struct Message {
    pub role: Role,
    pub content: Option<MessageContent>,
    pub tool_calls: Option<Vec<ToolCall>>,
    pub tool_call_id: Option<String>,
}

impl Clone for ContentPart {
    fn clone(&self) -> (r: Self)
        ensures
            r@ == self@,
    {
        match self {
            ContentPart::Text(t) => ContentPart::Text(t.clone()),
            ContentPart::ImageRef(u) => ContentPart::ImageRef(u.clone()),
        }
    }
}

impl Clone for MessageContent {
    fn clone(&self) -> (r: Self)
        ensures
            r@ == self@,
    {
        match self {
            MessageContent::Text(t) => MessageContent::Text(t.clone()),
            MessageContent::Parts(ps) => {
                let mut copy: Vec<ContentPart> = Vec::new();
                let n = ps.len();
                let mut i: usize = 0;
                while i < n
                    invariant
                        i <= n,
                        n == ps@.len(),
                        copy@.len() == i,
                        forall|k: int| 0 <= k < i ==> (#[trigger] copy@[k])@ == ps@[k]@,
                    decreases n - i,
                {
                    copy.push(ps[i].clone());
                    i = i + 1;
                }
                proof {
                    assert(copy@.map_values(|p: ContentPart| p@) =~= ps@.map_values(
                        |p: ContentPart| p@,
                    ));
                }
                MessageContent::Parts(copy)
            },
        }
    }
}

impl Clone for FunctionCall {
    fn clone(&self) -> (r: Self)
        ensures
            r.name@ == self.name@,
            r.arguments@ == self.arguments@,
    {
        FunctionCall { name: self.name.clone(), arguments: self.arguments.clone() }
    }
}

impl Clone for ToolCall {
    fn clone(&self) -> (r: Self)
        ensures
            r@ == self@,
    {
        ToolCall { id: self.id.clone(), kind: self.kind.clone(), function: self.function.clone() }
    }
}

/// The mathematical shape of a complete tool call.
pub ghost struct ToolCallModel {
    pub id: Seq<char>,
    pub kind: Seq<char>,
    pub name: Seq<char>,
    pub arguments: Seq<char>,
}

impl View for ToolCall {
    type V = ToolCallModel;

    open spec fn view(&self) -> ToolCallModel {
        ToolCallModel {
            id: self.id@,
            kind: self.kind@,
            name: self.function.name@,
            arguments: self.function.arguments@,
        }
    }
}

/// The mathematical shape of one content part.
pub ghost enum ContentPartModel {
    Text(Seq<char>),
    ImageRef(Seq<char>),
}

impl View for ContentPart {
    type V = ContentPartModel;

    open spec fn view(&self) -> ContentPartModel {
        match self {
            ContentPart::Text(t) => ContentPartModel::Text(t@),
            ContentPart::ImageRef(u) => ContentPartModel::ImageRef(u@),
        }
    }
}

/// The mathematical shape of a message body.
pub ghost enum MessageContentModel {
    Text(Seq<char>),
    Parts(Seq<ContentPartModel>),
}

impl View for MessageContent {
    type V = MessageContentModel;

    open spec fn view(&self) -> MessageContentModel {
        match self {
            MessageContent::Text(t) => MessageContentModel::Text(t@),
            MessageContent::Parts(ps) => MessageContentModel::Parts(
                ps@.map_values(|p: ContentPart| p@),
            ),
        }
    }
}

/// The mathematical shape of a transcript entry.
pub ghost struct MessageModel {
    pub role: Role,
    pub content: Option<MessageContentModel>,
    pub tool_calls: Option<Seq<ToolCallModel>>,
    pub tool_call_id: Option<Seq<char>>,
}

impl View for Message {
    type V = MessageModel;

    open spec fn view(&self) -> MessageModel {
        MessageModel {
            role: self.role,
            content: match self.content {
                Option::Some(ref c) => Option::Some(c@),
                Option::None => Option::None,
            },
            tool_calls: match self.tool_calls {
                Option::Some(ref cs) => Option::Some(cs@.map_values(|c: ToolCall| c@)),
                Option::None => Option::None,
            },
            tool_call_id: self.tool_call_id.deep_view(),
        }
    }
}

} // verus!
