//! The chat-channel history: how displayed chat entries become the request
//! transcript for the provider, how streamed text folds into the visible
//! history, and how a channel's log is rendered for export.

use vstd::prelude::*;
use vstd::string::StringExecFns;

use crate::messages::ContentPartModel;
use crate::messages::Message;
use crate::messages::MessageContent;
use crate::messages::MessageContentModel;
use crate::messages::MessageModel;
use crate::messages::Role;
use crate::text::str_eq;

verus! {

/// One visible chat entry: the speaker's display name and the content.
pub struct ChatEntry {
    pub speaker: String,
    pub content: MessageContent,
}

/// The mathematical shape of a chat entry.
pub ghost struct ChatEntryModel {
    pub speaker: Seq<char>,
    pub content: MessageContentModel,
}

impl View for ChatEntry {
    type V = ChatEntryModel;

    open spec fn view(&self) -> ChatEntryModel {
        ChatEntryModel { speaker: self.speaker@, content: self.content@ }
    }
}

/// The display name under which the user speaks.
pub open spec fn user_speaker() -> Seq<char> {
    "Cats2333"@
}

/// Whether entries of this speaker are the system's own, never the
/// model's or the user's turn content.
pub open spec fn system_speaker(s: Seq<char>) -> bool {
    s == "System"@ || s == "Error"@
}

/// The request message one chat entry becomes.
pub open spec fn entry_message(e: ChatEntryModel) -> MessageModel {
    MessageModel {
        role: if e.speaker == user_speaker() {
            Role::User
        } else {
            Role::Assistant
        },
        content: Option::Some(e.content),
        tool_calls: Option::None,
        tool_call_id: Option::None,
    }
}

/// The request messages a history becomes: system and error entries are
/// the consumer's own display lines and are not sent.
pub open spec fn history_messages(h: Seq<ChatEntryModel>) -> Seq<MessageModel>
    decreases h.len(),
{
    if h.len() == 0 {
        Seq::empty()
    } else {
        history_messages(h.drop_last()) + (if system_speaker(h.last().speaker) {
            Seq::empty()
        } else {
            seq![entry_message(h.last())]
        })
    }
}

/// The leading system message for a request, when a system prompt exists.
pub open spec fn system_message(prompt: Seq<char>) -> MessageModel {
    MessageModel {
        role: Role::System,
        content: Option::Some(MessageContentModel::Text(prompt)),
        tool_calls: Option::None,
        tool_call_id: Option::None,
    }
}

/// Builds the transcript for one provider request: the system prompt, if
/// any, followed by the history's user and assistant entries in order.
pub fn build_request_messages(system_prompt: &str, history: &Vec<ChatEntry>) -> (r: Vec<Message>)
    ensures
        r@.map_values(|m: Message| m@) == (if system_prompt@.len() > 0 {
            seq![system_message(system_prompt@)]
        } else {
            Seq::<MessageModel>::empty()
        }) + history_messages(history@.map_values(|e: ChatEntry| e@)),
{
    let ghost hs = history@.map_values(|e: ChatEntry| e@);
    let ghost head: Seq<MessageModel> = if system_prompt@.len() > 0 {
        seq![system_message(system_prompt@)]
    } else {
        Seq::<MessageModel>::empty()
    };
    let mut r: Vec<Message> = Vec::new();
    if system_prompt.unicode_len() > 0 {
        r.push(
            Message {
                role: Role::System,
                content: Option::Some(MessageContent::Text(system_prompt.to_owned())),
                tool_calls: Option::None,
                tool_call_id: Option::None,
            },
        );
    }
    proof {
        assert(hs.subrange(0, 0) =~= Seq::<ChatEntryModel>::empty());
        assert(r@.map_values(|m: Message| m@) =~= head + history_messages(hs.subrange(0, 0)));
    }
    let n = history.len();
    let mut i: usize = 0;
    while i < n
        invariant
            i <= n,
            n == hs.len(),
            hs == history@.map_values(|e: ChatEntry| e@),
            r@.map_values(|m: Message| m@) == head + history_messages(hs.subrange(0, i as int)),
        decreases n - i,
    {
        proof {
            assert(hs.subrange(0, i as int + 1).drop_last() =~= hs.subrange(0, i as int));
            assert(hs.subrange(0, i as int + 1).last() == hs[i as int]);
        }
        let e = &history[i];
        let skip_entry = str_eq(e.speaker.as_str(), "System") || str_eq(e.speaker.as_str(), "Error");
        if !skip_entry {
            let role = if str_eq(e.speaker.as_str(), "Cats2333") {
                Role::User
            } else {
                Role::Assistant
            };
            let msg = Message {
                role,
                content: Option::Some(e.content.clone()),
                tool_calls: Option::None,
                tool_call_id: Option::None,
            };
            proof {
                assert(msg@ == entry_message(hs[i as int]));
            }
            let ghost prev_map = r@.map_values(|m: Message| m@);
            r.push(msg);
            proof {
                assert(hs[i as int] == history@[i as int]@);
                assert(!system_speaker(hs[i as int].speaker));
                assert(history_messages(hs.subrange(0, i as int + 1)) == history_messages(
                    hs.subrange(0, i as int),
                ) + seq![entry_message(hs[i as int])]);
                assert(r@.map_values(|m: Message| m@) =~= prev_map.push(
                    entry_message(hs[i as int]),
                ));
                assert(prev_map.push(entry_message(hs[i as int])) =~= head + history_messages(
                    hs.subrange(0, i as int + 1),
                ));
            }
        } else {
            proof {
                assert(history_messages(hs.subrange(0, i as int + 1)) == history_messages(
                    hs.subrange(0, i as int),
                ) + Seq::<MessageModel>::empty());
                assert(history_messages(hs.subrange(0, i as int)) + Seq::<MessageModel>::empty()
                    =~= history_messages(hs.subrange(0, i as int)));
                assert(r@.map_values(|m: Message| m@) =~= head + history_messages(
                    hs.subrange(0, i as int + 1),
                ));
            }
        }
        i = i + 1;
    }
    proof {
        assert(hs.subrange(0, n as int) =~= hs);
    }
    r
}

/// Whether streamed text must open a new chat entry rather than extend the
/// last one: the history is empty, the last entry belongs to the user or
/// the system, or the last entry is not plain text.
pub open spec fn needs_new_entry(h: Seq<ChatEntryModel>) -> bool {
    ||| h.len() == 0
    ||| h.last().speaker == user_speaker()
    ||| system_speaker(h.last().speaker)
    ||| !(h.last().content is Text)
}

/// Folds one streamed text fragment into the visible history: it extends
/// the last plain-text entry of the active profile's reply, or opens a
/// fresh one.
pub fn append_stream_text(history: &mut Vec<ChatEntry>, profile_name: &str, text: &str)
    ensures
        ({
            let h0 = old(history)@.map_values(|e: ChatEntry| e@);
            let h1 = final(history)@.map_values(|e: ChatEntry| e@);
            if needs_new_entry(h0) {
                h1 == h0.push(
                    ChatEntryModel {
                        speaker: profile_name@,
                        content: MessageContentModel::Text(text@),
                    },
                )
            } else {
                h1 == h0.update(
                    h0.len() - 1,
                    ChatEntryModel {
                        speaker: h0.last().speaker,
                        content: MessageContentModel::Text(h0.last().content->Text_0 + text@),
                    },
                )
            }
        }),
{
    let ghost h0 = history@.map_values(|e: ChatEntry| e@);
    let n = history.len();
    let mut make_new = n == 0;
    if !make_new {
        let last = &history[n - 1];
        if str_eq(last.speaker.as_str(), "Cats2333") || str_eq(last.speaker.as_str(), "System")
            || str_eq(last.speaker.as_str(), "Error") {
            make_new = true;
        } else {
            match &last.content {
                MessageContent::Text(_) => {},
                MessageContent::Parts(_) => {
                    make_new = true;
                },
            }
        }
    }
    if make_new {
        history.push(
            ChatEntry {
                speaker: profile_name.to_owned(),
                content: MessageContent::Text(text.to_owned()),
            },
        );
        proof {
            assert(history@.map_values(|e: ChatEntry| e@) =~= h0.push(
                ChatEntryModel {
                    speaker: profile_name@,
                    content: MessageContentModel::Text(text@),
                },
            ));
        }
    } else {
        let entry = match history.pop() {
            Option::Some(e) => e,
            Option::None => {
                proof {
                    assert(false);
                }
                ChatEntry { speaker: String::new(), content: MessageContent::Text(String::new()) }
            },
        };
        let ChatEntry { speaker, content } = entry;
        let new_content = match content {
            MessageContent::Text(t) => {
                let mut t = t;
                t.append(text);
                MessageContent::Text(t)
            },
            MessageContent::Parts(p) => {
                proof {
                    assert(false);
                }
                MessageContent::Parts(p)
            },
        };
        history.push(ChatEntry { speaker, content: new_content });
        proof {
            assert(history@.map_values(|e: ChatEntry| e@) =~= h0.update(
                h0.len() - 1,
                ChatEntryModel {
                    speaker: h0.last().speaker,
                    content: MessageContentModel::Text(h0.last().content->Text_0 + text@),
                },
            ));
        }
    }
}

/// The text one content part contributes to the exported log.
pub open spec fn part_text(p: ContentPartModel) -> Seq<char> {
    match p {
        ContentPartModel::Text(t) => t,
        ContentPartModel::ImageRef(_) => Seq::empty(),
    }
}

/// The parts of a multi-part body joined by line breaks.
pub open spec fn parts_text(ps: Seq<ContentPartModel>) -> Seq<char>
    decreases ps.len(),
{
    if ps.len() == 0 {
        Seq::empty()
    } else if ps.len() == 1 {
        part_text(ps[0])
    } else {
        parts_text(ps.drop_last()) + "\n"@ + part_text(ps.last())
    }
}

/// The text a message body contributes to the exported log.
pub open spec fn content_text(c: MessageContentModel) -> Seq<char> {
    match c {
        MessageContentModel::Text(t) => t,
        MessageContentModel::Parts(ps) => parts_text(ps),
    }
}

/// One exported log line: the speaker in brackets, then the content.
pub open spec fn entry_line(e: ChatEntryModel) -> Seq<char> {
    "["@ + e.speaker + "]: "@ + content_text(e.content) + "\n\n"@
}

/// The whole exported log, entry by entry.
pub open spec fn log_text(h: Seq<ChatEntryModel>) -> Seq<char>
    decreases h.len(),
{
    if h.len() == 0 {
        Seq::empty()
    } else {
        log_text(h.drop_last()) + entry_line(h.last())
    }
}

/// Renders the parts of a multi-part body joined by line breaks.
fn render_parts(ps: &Vec<crate::messages::ContentPart>) -> (r: String)
    ensures
        r@ == parts_text(ps@.map_values(|p: crate::messages::ContentPart| p@)),
{
    let ghost models = ps@.map_values(|p: crate::messages::ContentPart| p@);
    let mut r = String::new();
    let n = ps.len();
    let mut i: usize = 0;
    proof {
        assert(models.subrange(0, 0) =~= Seq::<ContentPartModel>::empty());
    }
    while i < n
        invariant
            i <= n,
            n == models.len(),
            models == ps@.map_values(|p: crate::messages::ContentPart| p@),
            r@ == parts_text(models.subrange(0, i as int)),
        decreases n - i,
    {
        if i > 0 {
            r.append("\n");
        }
        match &ps[i] {
            crate::messages::ContentPart::Text(t) => {
                r.append(t.as_str());
            },
            crate::messages::ContentPart::ImageRef(_) => {},
        }
        proof {
            assert(models.subrange(0, i as int + 1).drop_last() =~= models.subrange(0, i as int));
            assert(models.subrange(0, i as int + 1).last() == models[i as int]);
            assert(r@ =~= parts_text(models.subrange(0, i as int + 1)));
        }
        i = i + 1;
    }
    proof {
        assert(models.subrange(0, n as int) =~= models);
    }
    r
}

/// Renders a channel's history for export, one bracketed line per entry.
pub fn render_log(history: &Vec<ChatEntry>) -> (r: String)
    ensures
        r@ == log_text(history@.map_values(|e: ChatEntry| e@)),
{
    let ghost hs = history@.map_values(|e: ChatEntry| e@);
    let mut r = String::new();
    let n = history.len();
    let mut i: usize = 0;
    proof {
        assert(hs.subrange(0, 0) =~= Seq::<ChatEntryModel>::empty());
    }
    while i < n
        invariant
            i <= n,
            n == hs.len(),
            hs == history@.map_values(|e: ChatEntry| e@),
            r@ == log_text(hs.subrange(0, i as int)),
        decreases n - i,
    {
        r.append("[");
        r.append(history[i].speaker.as_str());
        r.append("]: ");
        match &history[i].content {
            MessageContent::Text(t) => {
                r.append(t.as_str());
            },
            MessageContent::Parts(ps) => {
                let body = render_parts(ps);
                r.append(body.as_str());
            },
        }
        r.append("\n\n");
        proof {
            assert(hs.subrange(0, i as int + 1).drop_last() =~= hs.subrange(0, i as int));
            assert(hs.subrange(0, i as int + 1).last() == hs[i as int]);
            assert(r@ =~= log_text(hs.subrange(0, i as int + 1)));
        }
        i = i + 1;
    }
    proof {
        assert(hs.subrange(0, n as int) =~= hs);
    }
    r
}

} // verus!
