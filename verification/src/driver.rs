//! The turn loop driver: it owns the conversation transcript, drives
//! repeated model calls, decides whether to run tools or to finish, holds
//! the turn ceiling, and queues progress notifications for the consumer.
//!
//! The provider call itself — obtaining the event stream — and the actual
//! running of tools are the caller's business: the driver is handed every
//! stream event and every tool result and makes all decisions.

use vstd::prelude::*;
use vstd::string::StringExecFns;

use crate::assembler::to_map;
use crate::assembler::apply_delta;
use crate::assembler::keys_sorted;
use crate::assembler::outputs_of;
use crate::assembler::Assembler;
use crate::assembler::BuilderModel;
use crate::events::StreamEvent;
use crate::events::ToolCallDelta;
use crate::jsonio::json_check;
use crate::jsonio::json_parse_err;
use crate::jsonio::json_value_ok;
use crate::messages::Message;
use crate::messages::MessageContent;
use crate::messages::MessageContentModel;
use crate::messages::MessageModel;
use crate::messages::Role;
use crate::messages::ToolCall;
use crate::messages::ToolCallModel;
use crate::registry::Registry;

verus! {

/// One progress notification for the consumer; the queue preserves the
/// order in which they were produced, and delivery is fire-and-forget.
pub enum Notification {
    StreamText(String),
    Log(String),
    Done,
    Error(String),
}

/// The mathematical shape of a notification.
pub ghost enum NotificationModel {
    StreamText(Seq<char>),
    Log(Seq<char>),
    Done,
    Error(Seq<char>),
}

impl View for Notification {
    type V = NotificationModel;

    open spec fn view(&self) -> NotificationModel {
        match self {
            Notification::StreamText(t) => NotificationModel::StreamText(t@),
            Notification::Log(t) => NotificationModel::Log(t@),
            Notification::Done => NotificationModel::Done,
            Notification::Error(t) => NotificationModel::Error(t@),
        }
    }
}

/// Where the driver stands within one turn-loop run.
#[derive(Clone, Copy, PartialEq, Eq, Structural, Debug)]
pub enum Phase {
    Idle,
    Streaming,
    ToolDispatch,
    Completed,
    Aborted,
}

/// The mathematical shape of the driver's state.
pub ghost struct DriverModel {
    pub transcript: Seq<MessageModel>,
    pub turns_taken: int,
    pub ceiling: int,
    pub phase: Phase,
    pub text: Seq<char>,
    pub slots_seq: Seq<(int, BuilderModel)>,
    pub pending: Seq<ToolCallModel>,
    pub outbox: Seq<NotificationModel>,
}

/// Whether an assistant message carries a tool call with this id.
pub open spec fn assistant_carries(m: MessageModel, id: Seq<char>) -> bool {
    m.tool_calls matches Option::Some(cs) && exists|k: int|
        0 <= k < cs.len() && (#[trigger] cs[k]).id == id
}

/// A tool-role message answers one tool call of an earlier assistant
/// message, named by its `tool_call_id`.
pub open spec fn tool_msg_linked(ms: Seq<MessageModel>, i: int) -> bool {
    &&& ms[i].tool_call_id is Some
    &&& exists|j: int|
        0 <= j < i && (#[trigger] ms[j]).role == Role::Assistant && assistant_carries(
            ms[j],
            ms[i].tool_call_id->0,
        )
}

/// The transcript invariant: every tool-role message is linked to a prior
/// assistant tool call.
pub open spec fn transcript_wf(ms: Seq<MessageModel>) -> bool {
    forall|i: int| 0 <= i < ms.len() && (#[trigger] ms[i]).role == Role::Tool ==> tool_msg_linked(ms, i)
}

/// The assistant message that closes a streamed response: the accumulated
/// text, if any, and the assembled tool calls, if any.
pub open spec fn assistant_msg(text: Seq<char>, calls: Option<Seq<ToolCallModel>>) -> MessageModel {
    MessageModel {
        role: Role::Assistant,
        content: if text.len() > 0 {
            Option::Some(MessageContentModel::Text(text))
        } else {
            Option::None
        },
        tool_calls: calls,
        tool_call_id: Option::None,
    }
}

/// The tool-role message that reports one tool result.
pub open spec fn tool_msg(id: Seq<char>, text: Seq<char>) -> MessageModel {
    MessageModel {
        role: Role::Tool,
        content: Option::Some(MessageContentModel::Text(text)),
        tool_calls: Option::None,
        tool_call_id: Option::Some(id),
    }
}

/// The tool-role messages for a dispatched call list and its result texts.
pub open spec fn tool_messages(calls: Seq<ToolCallModel>, texts: Seq<Seq<char>>) -> Seq<MessageModel> {
    Seq::new(calls.len(), |i: int| tool_msg(calls[i].id, texts[i]))
}

/// The execution-log line announced before a tool call runs.
pub open spec fn exec_log_line(c: ToolCallModel) -> Seq<char> {
    "Executing tool: "@ + c.name + " args: "@ + c.arguments
}

/// The log notifications for a dispatched call list.
pub open spec fn exec_logs(calls: Seq<ToolCallModel>) -> Seq<NotificationModel> {
    calls.map_values(|c: ToolCallModel| NotificationModel::Log(exec_log_line(c)))
}

/// How one turn begins.
#[derive(Clone, Copy, PartialEq, Eq, Structural, Debug)]
pub enum TurnStart {
    Stream,
    Abort,
}

/// How a drained stream ends the turn.
#[derive(Clone, Copy, PartialEq, Eq, Structural, Debug)]
pub enum StreamEnd {
    ToolCalls,
    Answer,
    Empty,
}

/// The driver of one conversational turn-loop run.
pub struct Driver {
    transcript: Vec<Message>,
    turns_taken: u32,
    ceiling: u32,
    phase: Phase,
    text_buffer: String,
    assembler: Assembler,
    pending: Vec<ToolCall>,
    outbox: Vec<Notification>,
}

impl View for Driver {
    type V = DriverModel;

    closed spec fn view(&self) -> DriverModel {
        DriverModel {
            transcript: self.transcript@.map_values(|m: Message| m@),
            turns_taken: self.turns_taken as int,
            ceiling: self.ceiling as int,
            phase: self.phase,
            text: self.text_buffer@,
            slots_seq: self.assembler.seq_model(),
            pending: self.pending@.map_values(|c: ToolCall| c@),
            outbox: self.outbox@.map_values(|n: Notification| n@),
        }
    }
}

impl Driver {
    /// The driver's invariant: the transcript is well formed, the slot
    /// sequence is sorted, and during a dispatch the pending calls are
    /// exactly the ones the closing assistant message carries.
    pub open spec fn wf(self) -> bool {
        &&& transcript_wf(self@.transcript)
        &&& keys_sorted(self@.slots_seq)
        &&& self@.phase == Phase::ToolDispatch ==> {
            &&& self@.transcript.len() > 0
            &&& self@.transcript.last().role == Role::Assistant
            &&& forall|k: int|
                0 <= k < self@.pending.len() ==> assistant_carries(
                    self@.transcript.last(),
                    (#[trigger] self@.pending[k]).id,
                )
        }
    }

    /// Takes ownership of a transcript and prepares a run: no turns taken,
    /// nothing buffered, nothing pending, nothing queued.
    pub fn new(transcript: Vec<Message>, ceiling: u32) -> (d: Driver)
        requires
            transcript_wf(transcript@.map_values(|m: Message| m@)),
        ensures
            d.wf(),
            d@.transcript == transcript@.map_values(|m: Message| m@),
            d@.turns_taken == 0,
            d@.ceiling == ceiling as int,
            d@.phase == Phase::Idle,
            d@.text == Seq::<char>::empty(),
            d@.slots_seq == Seq::<(int, BuilderModel)>::empty(),
            d@.pending == Seq::<ToolCallModel>::empty(),
            d@.outbox == Seq::<NotificationModel>::empty(),
    {
        let d = Driver {
            transcript,
            turns_taken: 0,
            ceiling,
            phase: Phase::Idle,
            text_buffer: String::new(),
            assembler: Assembler::new(),
            pending: Vec::new(),
            outbox: Vec::new(),
        };
        proof {
            assert(d@.pending =~= Seq::<ToolCallModel>::empty());
            assert(d@.outbox =~= Seq::<NotificationModel>::empty());
        }
        d
    }

    /// Begins the next turn: past the ceiling the run aborts with a
    /// terminal error notification instead of calling the provider again;
    /// otherwise the turn counter advances and a fresh stream may be
    /// drained.
    pub fn begin_turn(&mut self) -> (r: TurnStart)
        requires
            old(self).wf(),
            old(self)@.phase == Phase::Idle,
        ensures
            final(self).wf(),
            r == TurnStart::Abort <==> old(self)@.turns_taken >= old(self)@.ceiling,
            final(self)@.transcript == old(self)@.transcript,
            final(self)@.ceiling == old(self)@.ceiling,
            r == TurnStart::Abort ==> {
                &&& final(self)@.phase == Phase::Aborted
                &&& final(self)@.turns_taken == old(self)@.turns_taken
                &&& final(self)@.outbox == old(self)@.outbox.push(
                    NotificationModel::Error("Max turns exceeded"@),
                )
            },
            r == TurnStart::Stream ==> {
                &&& final(self)@.phase == Phase::Streaming
                &&& final(self)@.turns_taken == old(self)@.turns_taken + 1
                &&& final(self)@.outbox == old(self)@.outbox
                &&& final(self)@.text == Seq::<char>::empty()
                &&& final(self)@.slots_seq == Seq::<(int, BuilderModel)>::empty()
                &&& final(self)@.pending == old(self)@.pending
            },
    {
        if self.turns_taken >= self.ceiling {
            self.outbox.push(Notification::Error("Max turns exceeded".to_owned()));
            self.phase = Phase::Aborted;
            proof {
                assert(self@.outbox =~= old(self)@.outbox.push(
                    NotificationModel::Error("Max turns exceeded"@),
                ));
            }
            TurnStart::Abort
        } else {
            self.turns_taken = self.turns_taken + 1;
            self.phase = Phase::Streaming;
            self.text_buffer = String::new();
            self.assembler = Assembler::new();
            TurnStart::Stream
        }
    }

    /// Consumes one stream event: text is forwarded to the consumer and
    /// accumulated, tool-call fragments feed the assembler, the terminal
    /// marker is inert, and a transport error is reported and aborts the
    /// turn.
    pub fn on_event(&mut self, ev: StreamEvent)
        requires
            old(self).wf(),
            old(self)@.phase == Phase::Streaming,
        ensures
            final(self).wf(),
            final(self)@.transcript == old(self)@.transcript,
            final(self)@.turns_taken == old(self)@.turns_taken,
            final(self)@.ceiling == old(self)@.ceiling,
            final(self)@.pending == old(self)@.pending,
            match ev@ {
                crate::events::EventModel::TextChunk(t) => {
                    &&& final(self)@.phase == Phase::Streaming
                    &&& final(self)@.text == old(self)@.text + t
                    &&& final(self)@.slots_seq == old(self)@.slots_seq
                    &&& final(self)@.outbox == old(self)@.outbox.push(
                        NotificationModel::StreamText(t),
                    )
                },
                crate::events::EventModel::ToolCallChunk(d) => {
                    &&& final(self)@.phase == Phase::Streaming
                    &&& final(self)@.text == old(self)@.text
                    &&& to_map(final(self)@.slots_seq) == apply_delta(
                        to_map(old(self)@.slots_seq),
                        d,
                    )
                    &&& final(self)@.outbox == old(self)@.outbox
                },
                crate::events::EventModel::Done => final(self)@ == old(self)@,
                crate::events::EventModel::Error(e) => {
                    &&& final(self)@.phase == Phase::Aborted
                    &&& final(self)@.text == old(self)@.text
                    &&& final(self)@.slots_seq == old(self)@.slots_seq
                    &&& final(self)@.outbox == old(self)@.outbox.push(NotificationModel::Error(e))
                },
            },
    {
        match ev {
            StreamEvent::TextChunk(t) => {
                self.text_buffer.append(t.as_str());
                self.outbox.push(Notification::StreamText(t));
                proof {
                    assert(self@.outbox =~= old(self)@.outbox.push(
                        NotificationModel::StreamText(ev@->TextChunk_0),
                    ));
                }
            },
            StreamEvent::ToolCallChunk(d) => {
                self.assembler.feed(d);
            },
            StreamEvent::Done => {},
            StreamEvent::Error(e) => {
                self.outbox.push(Notification::Error(e));
                self.phase = Phase::Aborted;
                proof {
                    assert(self@.outbox =~= old(self)@.outbox.push(
                        NotificationModel::Error(ev@->Error_0),
                    ));
                }
            },
        }
    }
}

/// Appending a non-tool message preserves the transcript invariant.
pub proof fn lemma_wf_push_non_tool(ms: Seq<MessageModel>, m: MessageModel)
    requires
        transcript_wf(ms),
        m.role != Role::Tool,
    ensures
        transcript_wf(ms.push(m)),
{
    let t = ms.push(m);
    assert forall|i: int| 0 <= i < t.len() && (#[trigger] t[i]).role == Role::Tool implies tool_msg_linked(
        t,
        i,
    ) by {
        assert(t[i] == ms[i]);
        assert(tool_msg_linked(ms, i));
        let j = choose|j: int|
            0 <= j < i && (#[trigger] ms[j]).role == Role::Assistant && assistant_carries(
                ms[j],
                ms[i].tool_call_id->0,
            );
        assert(t[j] == ms[j]);
    }
}

impl Driver {
    /// Closes a drained stream. Assembled tool calls take the turn into
    /// dispatch: one assistant message carrying the accumulated text (if
    /// any) and the calls is appended, an execution-log notification is
    /// queued per call, and the calls become pending. Without tool calls
    /// the turn completes: non-empty text is appended as the final
    /// assistant answer; an empty turn appends nothing. Either way a
    /// terminal success notification is queued on completion.
    pub fn end_stream(&mut self) -> (r: StreamEnd)
        requires
            old(self).wf(),
            old(self)@.phase == Phase::Streaming,
        ensures
            final(self).wf(),
            final(self)@.turns_taken == old(self)@.turns_taken,
            final(self)@.ceiling == old(self)@.ceiling,
            final(self)@.text == Seq::<char>::empty(),
            final(self)@.slots_seq == Seq::<(int, BuilderModel)>::empty(),
            ({
                let calls = outputs_of(old(self)@.slots_seq);
                if calls.len() > 0 {
                    &&& r == StreamEnd::ToolCalls
                    &&& final(self)@.phase == Phase::ToolDispatch
                    &&& final(self)@.pending == calls
                    &&& final(self)@.transcript == old(self)@.transcript.push(
                        assistant_msg(old(self)@.text, Option::Some(calls)),
                    )
                    &&& final(self)@.outbox == old(self)@.outbox + exec_logs(calls)
                } else if old(self)@.text.len() > 0 {
                    &&& r == StreamEnd::Answer
                    &&& final(self)@.phase == Phase::Completed
                    &&& final(self)@.pending == old(self)@.pending
                    &&& final(self)@.transcript == old(self)@.transcript.push(
                        assistant_msg(old(self)@.text, Option::None),
                    )
                    &&& final(self)@.outbox == old(self)@.outbox.push(NotificationModel::Done)
                } else {
                    &&& r == StreamEnd::Empty
                    &&& final(self)@.phase == Phase::Completed
                    &&& final(self)@.pending == old(self)@.pending
                    &&& final(self)@.transcript == old(self)@.transcript
                    &&& final(self)@.outbox == old(self)@.outbox.push(NotificationModel::Done)
                }
            }),
    {
        let ghost calls_model = outputs_of(old(self)@.slots_seq);
        let mut taken = Assembler::new();
        core::mem::swap(&mut self.assembler, &mut taken);
        let mut buffer = String::new();
        core::mem::swap(&mut self.text_buffer, &mut buffer);
        let calls = taken.finish();
        if calls.len() > 0 {
            let mut k: usize = 0;
            let n = calls.len();
            while k < n
                invariant
                    k <= n,
                    n == calls_model.len(),
                    calls@.map_values(|c: ToolCall| c@) == calls_model,
                    self.outbox@.map_values(|x: Notification| x@) == old(self)@.outbox + exec_logs(
                        calls_model.subrange(0, k as int),
                    ),
                    self.transcript == old(self).transcript,
                    self.pending == old(self).pending,
                    self.turns_taken == old(self).turns_taken,
                    self.ceiling == old(self).ceiling,
                    self.phase == old(self).phase,
                    self.text_buffer@ == Seq::<char>::empty(),
                    self.assembler.seq_model() == Seq::<(int, BuilderModel)>::empty(),
                decreases n - k,
            {
                let mut line = "Executing tool: ".to_owned();
                line.append(calls[k].function.name.as_str());
                line.append(" args: ");
                line.append(calls[k].function.arguments.as_str());
                proof {
                    assert(line@ =~= exec_log_line(calls_model[k as int]));
                }
                let ghost nmodel = NotificationModel::Log(line@);
                let ghost prev_out = self.outbox@;
                self.outbox.push(Notification::Log(line));
                proof {
                    assert(self.outbox@.map_values(|x: Notification| x@) =~= prev_out.map_values(
                        |x: Notification| x@,
                    ).push(nmodel));
                    assert(exec_logs(calls_model.subrange(0, k as int + 1)) =~= exec_logs(
                        calls_model.subrange(0, k as int),
                    ).push(NotificationModel::Log(exec_log_line(calls_model[k as int]))));
                    assert(self.outbox@.map_values(|x: Notification| x@) =~= old(self)@.outbox
                        + exec_logs(calls_model.subrange(0, k as int + 1)));
                }
                k = k + 1;
            }
            proof {
                assert(calls_model.subrange(0, n as int) =~= calls_model);
            }
            let calls_copy = clone_calls(&calls);
            let content = if buffer.as_str().unicode_len() > 0 {
                Option::Some(MessageContent::Text(buffer))
            } else {
                Option::None
            };
            let msg = Message {
                role: Role::Assistant,
                content,
                tool_calls: Option::Some(calls_copy),
                tool_call_id: Option::None,
            };
            proof {
                assert(msg@ == assistant_msg(old(self)@.text, Option::Some(calls_model)));
            }
            self.transcript.push(msg);
            self.pending = calls;
            self.phase = Phase::ToolDispatch;
            proof {
                assert(self@.transcript =~= old(self)@.transcript.push(
                    assistant_msg(old(self)@.text, Option::Some(calls_model)),
                ));
                lemma_wf_push_non_tool(
                    old(self)@.transcript,
                    assistant_msg(old(self)@.text, Option::Some(calls_model)),
                );
                assert forall|k2: int| 0 <= k2 < self@.pending.len() implies assistant_carries(
                    self@.transcript.last(),
                    (#[trigger] self@.pending[k2]).id,
                ) by {
                    assert(self@.transcript.last().tool_calls == Option::Some(calls_model));
                    assert(self@.pending[k2] == calls_model[k2]);
                    assert((self@.transcript.last().tool_calls->0)[k2].id == self@.pending[k2].id);
                }
            }
            StreamEnd::ToolCalls
        } else if buffer.as_str().unicode_len() > 0 {
            let msg = Message {
                role: Role::Assistant,
                content: Option::Some(MessageContent::Text(buffer)),
                tool_calls: Option::None,
                tool_call_id: Option::None,
            };
            proof {
                assert(msg@ == assistant_msg(old(self)@.text, Option::None));
            }
            self.transcript.push(msg);
            self.outbox.push(Notification::Done);
            self.phase = Phase::Completed;
            proof {
                assert(self@.transcript =~= old(self)@.transcript.push(
                    assistant_msg(old(self)@.text, Option::None),
                ));
                assert(self@.outbox =~= old(self)@.outbox.push(NotificationModel::Done));
                lemma_wf_push_non_tool(
                    old(self)@.transcript,
                    assistant_msg(old(self)@.text, Option::None),
                );
            }
            StreamEnd::Answer
        } else {
            self.outbox.push(Notification::Done);
            self.phase = Phase::Completed;
            proof {
                assert(self@.outbox =~= old(self)@.outbox.push(NotificationModel::Done));
            }
            StreamEnd::Empty
        }
    }

    /// Feeds the tool results of a dispatch back into the conversation:
    /// one tool-role message per pending call, in order, each tagged with
    /// its originating call's id. The loop is then ready for the next
    /// turn.
    pub fn apply_tool_results(&mut self, results: Vec<String>)
        requires
            old(self).wf(),
            old(self)@.phase == Phase::ToolDispatch,
            results@.len() == old(self)@.pending.len(),
        ensures
            final(self).wf(),
            final(self)@.phase == Phase::Idle,
            final(self)@.transcript == old(self)@.transcript + tool_messages(
                old(self)@.pending,
                results@.map_values(|s: String| s@),
            ),
            final(self)@.pending == Seq::<ToolCallModel>::empty(),
            final(self)@.outbox == old(self)@.outbox,
            final(self)@.turns_taken == old(self)@.turns_taken,
            final(self)@.ceiling == old(self)@.ceiling,
    {
        let ghost pending0 = old(self)@.pending;
        let ghost texts0 = results@.map_values(|s: String| s@);
        let mut calls: Vec<ToolCall> = Vec::new();
        core::mem::swap(&mut self.pending, &mut calls);
        let mut rest = results;
        let n = calls.len();
        let mut i: usize = 0;
        let mut calls_left = calls;
        while i < n
            invariant
                i <= n,
                n == pending0.len(),
                n == texts0.len(),
                calls_left@.len() == n - i,
                forall|k: int|
                    0 <= k < calls_left@.len() ==> (#[trigger] calls_left@[k])@ == pending0[i + k],
                rest@.len() == n - i,
                forall|k: int| 0 <= k < rest@.len() ==> (#[trigger] rest@[k])@ == texts0[i + k],
                self@.transcript == old(self)@.transcript + tool_messages(pending0, texts0)
                    .subrange(0, i as int),
                self.pending@.len() == 0,
                self.outbox == old(self).outbox,
                self.turns_taken == old(self).turns_taken,
                self.ceiling == old(self).ceiling,
                self.phase == old(self).phase,
                self.text_buffer == old(self).text_buffer,
                self.assembler == old(self).assembler,
            decreases n - i,
        {
            let call = calls_left.remove(0);
            let text = rest.remove(0);
            let msg = Message {
                role: Role::Tool,
                content: Option::Some(MessageContent::Text(text)),
                tool_calls: Option::None,
                tool_call_id: Option::Some(call.id),
            };
            let ghost mmodel = msg@;
            let ghost prev_tr = self.transcript@;
            proof {
                assert(mmodel == tool_msg(pending0[i as int].id, texts0[i as int]));
                assert(tool_messages(pending0, texts0).subrange(0, i as int + 1) =~= tool_messages(
                    pending0,
                    texts0,
                ).subrange(0, i as int).push(tool_msg(pending0[i as int].id, texts0[i as int])));
            }
            self.transcript.push(msg);
            proof {
                assert(self@.transcript =~= prev_tr.map_values(|m: Message| m@).push(mmodel));
                assert(self@.transcript =~= old(self)@.transcript + tool_messages(
                    pending0,
                    texts0,
                ).subrange(0, i as int + 1));
            }
            i = i + 1;
        }
        self.phase = Phase::Idle;
        proof {
            assert(tool_messages(pending0, texts0).subrange(0, n as int) =~= tool_messages(
                pending0,
                texts0,
            ));
            assert(self@.pending =~= Seq::<ToolCallModel>::empty());
            let ms0 = old(self)@.transcript;
            let ms1 = self@.transcript;
            let added = tool_messages(pending0, texts0);
            assert forall|ix: int|
                0 <= ix < ms1.len() && (#[trigger] ms1[ix]).role == Role::Tool implies tool_msg_linked(
                ms1,
                ix,
            ) by {
                if ix < ms0.len() {
                    assert(ms1[ix] == ms0[ix]);
                    assert(tool_msg_linked(ms0, ix));
                    let j = choose|j: int|
                        0 <= j < ix && (#[trigger] ms0[j]).role == Role::Assistant
                            && assistant_carries(ms0[j], ms0[ix].tool_call_id->0);
                    assert(ms1[j] == ms0[j]);
                } else {
                    let k = ix - ms0.len();
                    assert(ms1[ix] == added[k]);
                    let j = ms0.len() - 1;
                    assert(ms1[j] == ms0[j]);
                    assert(ms0.last().role == Role::Assistant);
                    assert(assistant_carries(ms0.last(), pending0[k].id));
                    assert(ms1[ix].tool_call_id == Option::Some(pending0[k].id));
                }
            }
        }
    }

    /// Hands over everything queued for the consumer, in production order,
    /// leaving the queue empty.
    pub fn drain_outbox(&mut self) -> (msgs: Vec<Notification>)
        requires
            old(self).wf(),
        ensures
            final(self).wf(),
            msgs@.map_values(|x: Notification| x@) == old(self)@.outbox,
            final(self)@ == (DriverModel { outbox: Seq::<NotificationModel>::empty(), ..old(self)@ }),
    {
        let mut msgs: Vec<Notification> = Vec::new();
        core::mem::swap(&mut self.outbox, &mut msgs);
        proof {
            assert(self@.outbox =~= Seq::<NotificationModel>::empty());
            assert(self@ =~= DriverModel { outbox: Seq::<NotificationModel>::empty(), ..old(self)@ });
        }
        msgs
    }

    /// The calls awaiting results in the current dispatch.
    pub fn pending_calls(&self) -> (calls: &Vec<ToolCall>)
        ensures
            calls@.map_values(|c: ToolCall| c@) == self@.pending,
    {
        &self.pending
    }

    /// Where the driver stands.
    pub fn phase(&self) -> (p: Phase)
        ensures
            p == self@.phase,
    {
        self.phase
    }

    /// How many turns have begun streaming.
    pub fn turns_taken(&self) -> (n: u32)
        ensures
            n as int == self@.turns_taken,
    {
        self.turns_taken
    }

    /// The conversation so far.
    pub fn transcript(&self) -> (ms: &Vec<Message>)
        ensures
            ms@.map_values(|m: Message| m@) == self@.transcript,
    {
        &self.transcript
    }
}

/// Clones a call list, preserving every call's content.
fn clone_calls(calls: &Vec<ToolCall>) -> (r: Vec<ToolCall>)
    ensures
        r@.map_values(|c: ToolCall| c@) == calls@.map_values(|c: ToolCall| c@),
{
    let mut r: Vec<ToolCall> = Vec::new();
    let n = calls.len();
    let mut i: usize = 0;
    while i < n
        invariant
            i <= n,
            n == calls@.len(),
            r@.len() == i,
            forall|k: int| 0 <= k < i ==> (#[trigger] r@[k])@ == calls@[k]@,
        decreases n - i,
    {
        r.push(calls[i].clone());
        i = i + 1;
    }
    proof {
        assert(r@.map_values(|c: ToolCall| c@) =~= calls@.map_values(|c: ToolCall| c@));
    }
    r
}

/// How one tool call of a turn is handled: run it, or report this text
/// instead.
pub enum CallPlan {
    Run,
    Fail(String),
}

/// The result text for a call whose tool is absent from the active set.
pub open spec fn not_found_text(name: Seq<char>) -> Seq<char> {
    "Error: Tool '"@ + name + "' not found"@
}

/// The result text for a call whose argument string is not valid JSON.
pub open spec fn parse_error_text(args: Seq<char>) -> Seq<char> {
    "Error parsing arguments JSON: "@ + json_parse_err(args)
}

/// Resolves one assembled call against the active tool set: an absent tool
/// or malformed arguments become an error result text fed back into the
/// conversation — the loop continues either way — and only a resolved,
/// well-formed call is actually run.
pub fn resolve_call(reg: &Registry, call: &ToolCall) -> (r: CallPlan)
    ensures
        ({
            if !reg.spec_has(call@.name) {
                r matches CallPlan::Fail(t) && t@ == not_found_text(call@.name)
            } else if !json_value_ok(call@.arguments) {
                r matches CallPlan::Fail(t) && t@ == parse_error_text(call@.arguments)
            } else {
                r is Run
            }
        }),
{
    if !reg.has_tool(call.function.name.as_str()) {
        let mut t = "Error: Tool '".to_owned();
        t.append(call.function.name.as_str());
        t.append("' not found");
        proof {
            assert(t@ =~= not_found_text(call@.name));
        }
        CallPlan::Fail(t)
    } else {
        match json_check(call.function.arguments.as_str()) {
            Result::Ok(u) => CallPlan::Run,
            Result::Err(e) => {
                let mut t = "Error parsing arguments JSON: ".to_owned();
                t.append(e.as_str());
                proof {
                    assert(t@ =~= parse_error_text(call@.arguments));
                }
                CallPlan::Fail(t)
            },
        }
    }
}

/// The concatenation of a sequence of text fragments, in order.
pub open spec fn concat_texts(ts: Seq<Seq<char>>) -> Seq<char>
    decreases ts.len(),
{
    if ts.len() == 0 {
        Seq::empty()
    } else {
        concat_texts(ts.drop_last()) + ts.last()
    }
}

/// The stream-text notifications for a sequence of text fragments.
pub open spec fn text_notes(ts: Seq<Seq<char>>) -> Seq<NotificationModel> {
    ts.map_values(|t: Seq<char>| NotificationModel::StreamText(t))
}

/// One full turn against a stream that delivers exactly one named
/// tool-call fragment and ends. Below the ceiling the turn streams,
/// dispatches, applies the result and returns to idle with the turn
/// counter advanced by one; at the ceiling it aborts with the terminal
/// error instead. A model that answers every turn with a tool call
/// therefore never completes the loop: it is stopped by the ceiling.
pub fn run_single_call_turn(d: &mut Driver, frag: ToolCallDelta, result: String) -> (ran: bool)
    requires
        old(d).wf(),
        old(d)@.phase == Phase::Idle,
        frag@.name is Some,
    ensures
        final(d).wf(),
        ran <==> old(d)@.turns_taken < old(d)@.ceiling,
        final(d)@.ceiling == old(d)@.ceiling,
        ran ==> {
            &&& final(d)@.phase == Phase::Idle
            &&& final(d)@.turns_taken == old(d)@.turns_taken + 1
            &&& final(d)@.transcript.len() == old(d)@.transcript.len() + 2
        },
        !ran ==> {
            &&& final(d)@.phase == Phase::Aborted
            &&& final(d)@.turns_taken == old(d)@.turns_taken
            &&& final(d)@.outbox == old(d)@.outbox.push(
                NotificationModel::Error("Max turns exceeded"@),
            )
        },
{
    let ghost fm = frag@;
    match d.begin_turn() {
        TurnStart::Abort => false,
        TurnStart::Stream => {
            d.on_event(StreamEvent::ToolCallChunk(frag));
            proof {
                let slots1 = d@.slots_seq;
                let merged = crate::assembler::merge_builder(crate::assembler::empty_builder(), fm);
                let single: Seq<(int, BuilderModel)> = seq![(fm.slot, merged)];
                assert(to_map(Seq::<(int, BuilderModel)>::empty()) =~= Map::<int, BuilderModel>::empty());
                assert(single.drop_last() =~= Seq::<(int, BuilderModel)>::empty());
                assert(to_map(single) =~= Map::<int, BuilderModel>::empty().insert(fm.slot, merged));
                assert(to_map(slots1) =~= to_map(single));
                crate::assembler::lemma_sorted_unique(slots1, single);
                assert(outputs_of(single.drop_last()) =~= Seq::<ToolCallModel>::empty());
                assert(merged.name is Some);
                assert(outputs_of(single) =~= seq![
                    crate::assembler::finalize_builder(fm.slot, merged),
                ]);
                assert(outputs_of(slots1).len() == 1);
            }
            d.end_stream();
            let mut results: Vec<String> = Vec::new();
            results.push(result);
            d.apply_tool_results(results);
            true
        },
    }
}

/// A turn loop run against a model that returns exactly one tool call
/// every turn: the run makes exactly `ceiling` provider calls — the turn
/// counter ends at the ceiling, neither one short of it nor past it — and
/// then terminates with the aborted signal as its last notification.
#[verifier::loop_isolation(true)]
pub fn run_tool_only_loop(transcript: Vec<Message>, ceiling: u32, name: &str, result: &str) -> (d:
    Driver)
    requires
        transcript_wf(transcript@.map_values(|m: Message| m@)),
    ensures
        d.wf(),
        d@.ceiling == ceiling as int,
        d@.turns_taken == ceiling as int,
        d@.phase == Phase::Aborted,
        d@.outbox.len() > 0,
        d@.outbox.last() == NotificationModel::Error("Max turns exceeded"@),
{
    let mut d = Driver::new(transcript, ceiling);
    loop
        invariant_except_break
            d.wf(),
            d@.phase == Phase::Idle,
            d@.turns_taken <= ceiling as int,
            d@.ceiling == ceiling as int,
        ensures
            d.wf(),
            d@.phase == Phase::Aborted,
            d@.turns_taken == ceiling as int,
            d@.ceiling == ceiling as int,
            d@.outbox.len() > 0,
            d@.outbox.last() == NotificationModel::Error("Max turns exceeded"@),
        decreases ceiling as int - d@.turns_taken,
    {
        let frag = ToolCallDelta {
            slot: 0,
            id: Option::None,
            kind: Option::None,
            name: Option::Some(name.to_owned()),
            arguments: Option::None,
        };
        if !run_single_call_turn(&mut d, frag, result.to_owned()) {
            break;
        }
    }
    d
}

/// A turn whose stream delivers only text and ends: the loop terminates
/// after this single further iteration with a completed signal, appending
/// exactly one assistant message that carries the concatenated text — and
/// none at all when the turn streamed no text.
pub fn run_text_turn(d: &mut Driver, chunks: Vec<String>) -> (r: StreamEnd)
    requires
        old(d).wf(),
        old(d)@.phase == Phase::Idle,
        old(d)@.turns_taken < old(d)@.ceiling,
    ensures
        final(d).wf(),
        final(d)@.turns_taken == old(d)@.turns_taken + 1,
        final(d)@.ceiling == old(d)@.ceiling,
        final(d)@.phase == Phase::Completed,
        ({
            let ts = chunks@.map_values(|s: String| s@);
            let t = concat_texts(ts);
            if t.len() > 0 {
                &&& r == StreamEnd::Answer
                &&& final(d)@.transcript == old(d)@.transcript.push(assistant_msg(t, Option::None))
                &&& final(d)@.outbox == old(d)@.outbox + text_notes(ts) + seq![
                    NotificationModel::Done,
                ]
            } else {
                &&& r == StreamEnd::Empty
                &&& final(d)@.transcript == old(d)@.transcript
                &&& final(d)@.outbox == old(d)@.outbox + text_notes(ts) + seq![
                    NotificationModel::Done,
                ]
            }
        }),
{
    let ghost ts = chunks@.map_values(|s: String| s@);
    let start = d.begin_turn();
    proof {
        assert(start == TurnStart::Stream);
    }
    let mut rest = chunks;
    let n = rest.len();
    let mut i: usize = 0;
    proof {
        assert(ts.subrange(0, 0) =~= Seq::<Seq<char>>::empty());
        assert(d@.text =~= concat_texts(ts.subrange(0, 0)));
        assert(text_notes(ts.subrange(0, 0)) =~= Seq::<NotificationModel>::empty());
        assert(d@.outbox =~= old(d)@.outbox + text_notes(ts.subrange(0, 0)));
    }
    while i < n
        invariant
            i <= n,
            n == ts.len(),
            rest@.len() == n - i,
            forall|k: int| 0 <= k < rest@.len() ==> (#[trigger] rest@[k])@ == ts[i + k],
            d.wf(),
            d@.phase == Phase::Streaming,
            d@.turns_taken == old(d)@.turns_taken + 1,
            d@.ceiling == old(d)@.ceiling,
            d@.transcript == old(d)@.transcript,
            d@.pending == old(d)@.pending,
            d@.slots_seq == Seq::<(int, BuilderModel)>::empty(),
            d@.text == concat_texts(ts.subrange(0, i as int)),
            d@.outbox == old(d)@.outbox + text_notes(ts.subrange(0, i as int)),
        decreases n - i,
    {
        let c = rest.remove(0);
        d.on_event(StreamEvent::TextChunk(c));
        proof {
            assert(ts.subrange(0, i as int + 1).drop_last() =~= ts.subrange(0, i as int));
            assert(ts.subrange(0, i as int + 1).last() == ts[i as int]);
            assert(text_notes(ts.subrange(0, i as int + 1)) =~= text_notes(
                ts.subrange(0, i as int),
            ).push(NotificationModel::StreamText(ts[i as int])));
            assert(d@.outbox =~= old(d)@.outbox + text_notes(ts.subrange(0, i as int + 1)));
        }
        i = i + 1;
    }
    proof {
        assert(ts.subrange(0, n as int) =~= ts);
        assert(outputs_of(Seq::<(int, BuilderModel)>::empty()) =~= Seq::<ToolCallModel>::empty());
    }
    let r = d.end_stream();
    proof {
        assert((old(d)@.outbox + text_notes(ts)).push(NotificationModel::Done) =~= old(d)@.outbox
            + text_notes(ts) + seq![NotificationModel::Done]);
    }
    r
}

/// The result text for a finished execution: a domain failure is rendered
/// into the conversation rather than aborting the loop.
pub fn render_exec_outcome(outcome: Result<String, String>) -> (r: String)
    ensures
        match outcome {
            Result::Ok(o) => r@ == o@,
            Result::Err(e) => r@ == "Error executing tool: "@ + e@,
        },
{
    match outcome {
        Result::Ok(o) => o,
        Result::Err(e) => {
            let mut t = "Error executing tool: ".to_owned();
            t.append(e.as_str());
            proof {
                assert(t@ =~= "Error executing tool: "@ + e@);
            }
            t
        },
    }
}

} // verus!
