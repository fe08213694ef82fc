//! The streaming event decoder: it normalizes a provider's heterogeneous
//! incremental deltas into a small closed set of stream events.

use vstd::prelude::*;

verus! {

/// The payload of one tool-call fragment. A streamed response may build
/// several tool calls at once; `slot` says which in-progress call this
/// fragment belongs to. All other fields are optional: providers send
/// whichever pieces they have.
pub struct ToolCallDelta {
    pub slot: u32,
    pub id: Option<String>,
    pub kind: Option<String>,
    pub name: Option<String>,
    pub arguments: Option<String>,
}

/// The mathematical shape of a tool-call fragment.
pub ghost struct DeltaModel {
    pub slot: int,
    pub id: Option<Seq<char>>,
    pub kind: Option<Seq<char>>,
    pub name: Option<Seq<char>>,
    pub arguments: Option<Seq<char>>,
}

impl View for ToolCallDelta {
    type V = DeltaModel;

    open spec fn view(&self) -> DeltaModel {
        DeltaModel {
            slot: self.slot as int,
            id: self.id.deep_view(),
            kind: self.kind.deep_view(),
            name: self.name.deep_view(),
            arguments: self.arguments.deep_view(),
        }
    }
}

/// The closed set of events the engine consumes.
pub enum StreamEvent {
    TextChunk(String),
    ToolCallChunk(ToolCallDelta),
    Done,
    Error(String),
}

/// The mathematical shape of a stream event.
pub ghost enum EventModel {
    TextChunk(Seq<char>),
    ToolCallChunk(DeltaModel),
    Done,
    Error(Seq<char>),
}

impl View for StreamEvent {
    type V = EventModel;

    open spec fn view(&self) -> EventModel {
        match self {
            StreamEvent::TextChunk(t) => EventModel::TextChunk(t@),
            StreamEvent::ToolCallChunk(d) => EventModel::ToolCallChunk(d@),
            StreamEvent::Done => EventModel::Done,
            StreamEvent::Error(e) => EventModel::Error(e@),
        }
    }
}

/// One raw incremental delta as a provider hands it over, already freed of
/// any wire format: an optional text fragment, any number of tool-call
/// fragments, a terminal flag, and an optional transport error.
pub struct WireDelta {
    pub text: Option<String>,
    pub tool_calls: Vec<ToolCallDelta>,
    pub done: bool,
    pub error: Option<String>,
}

/// The events one raw delta stands for, in the order the engine must see
/// them: a transport error first (it preempts content), then the text
/// fragment, then each tool-call fragment in wire order, then the terminal
/// marker.
pub open spec fn wire_events(
    text: Option<Seq<char>>,
    tool_calls: Seq<DeltaModel>,
    done: bool,
    error: Option<Seq<char>>,
) -> Seq<EventModel> {
    (match error {
        Option::Some(e) => seq![EventModel::Error(e)],
        Option::None => Seq::empty(),
    }) + (match text {
        Option::Some(t) => seq![EventModel::TextChunk(t)],
        Option::None => Seq::empty(),
    }) + tool_calls.map_values(|d: DeltaModel| EventModel::ToolCallChunk(d))
        + (if done {
        seq![EventModel::Done]
    } else {
        Seq::empty()
    })
}

impl View for WireDelta {
    type V = Seq<EventModel>;

    open spec fn view(&self) -> Seq<EventModel> {
        wire_events(
            self.text.deep_view(),
            self.tool_calls@.map_values(|d: ToolCallDelta| d@),
            self.done,
            self.error.deep_view(),
        )
    }
}

/// Normalizes one raw delta into the closed event set.
pub fn decode_wire_delta(delta: WireDelta) -> (events: Vec<StreamEvent>)
    ensures
        events@.map_values(|ev: StreamEvent| ev@) == delta@,
{
    let ghost target: Seq<EventModel> = delta@;
    let WireDelta { text, tool_calls, done, error } = delta;
    let ghost tool_models: Seq<DeltaModel> = tool_calls@.map_values(|d: ToolCallDelta| d@);
    let ghost err_m: Option<Seq<char>> = error.deep_view();
    let ghost text_m: Option<Seq<char>> = text.deep_view();
    let ghost pre: Seq<EventModel> = (match err_m {
        Option::Some(e) => seq![EventModel::Error(e)],
        Option::None => Seq::empty(),
    }) + (match text_m {
        Option::Some(t) => seq![EventModel::TextChunk(t)],
        Option::None => Seq::empty(),
    });
    let mut events: Vec<StreamEvent> = Vec::new();
    if let Option::Some(e) = error {
        events.push(StreamEvent::Error(e));
    }
    if let Option::Some(t) = text {
        events.push(StreamEvent::TextChunk(t));
    }
    proof {
        assert(events@.map_values(|ev: StreamEvent| ev@) =~= pre);
    }
    let ghost head: Seq<StreamEvent> = events@;
    let mut rest = tool_calls;
    let n: usize = rest.len();
    let mut i: usize = 0;
    while i < n
        invariant
            i <= n,
            events@.len() == head.len() + i,
            forall|k: int| 0 <= k < head.len() ==> events@[k] == head[k],
            forall|j: int|
                0 <= j < i ==> ((#[trigger] events@[head.len() + j]) matches StreamEvent::ToolCallChunk(d)
                    && d@ == tool_models[j]),
            rest@.len() == n - i,
            forall|j: int| 0 <= j < rest@.len() ==> (#[trigger] rest@[j])@ == tool_models[i + j],
        decreases n - i,
    {
        let tc = rest.remove(0);
        events.push(StreamEvent::ToolCallChunk(tc));
        i = i + 1;
    }
    if done {
        events.push(StreamEvent::Done);
    }
    proof {
        let chunkpart = tool_models.map_values(|d: DeltaModel| EventModel::ToolCallChunk(d));
        let donepart: Seq<EventModel> = if done {
            seq![EventModel::Done]
        } else {
            Seq::empty()
        };
        let lhs = events@.map_values(|ev: StreamEvent| ev@);
        let rhs = pre + chunkpart + donepart;
        assert(head.map_values(|ev: StreamEvent| ev@).len() == head.len());
        assert(pre.len() == head.len());
        assert(lhs.len() == rhs.len());
        assert forall|k: int| 0 <= k < lhs.len() implies lhs[k] == rhs[k] by {
            assert(lhs[k] == events@[k]@);
            if k < pre.len() {
                assert(head.map_values(|ev: StreamEvent| ev@)[k] == head[k]@);
                assert(pre[k] == head[k]@);
                assert(events@[k] == head[k]);
            } else if k < pre.len() + tool_models.len() {
                let j = k - pre.len();
                assert(events@[head.len() + j] matches StreamEvent::ToolCallChunk(d)
                    && d@ == tool_models[j]);
                assert(rhs[k] == chunkpart[j]);
            } else {
                assert(done);
                assert(rhs[k] == EventModel::Done);
            }
        }
        assert(lhs =~= rhs);
        assert(target =~= rhs);
    }
    events
}

} // verus!
