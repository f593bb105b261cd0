//! The completion-client core: model-name mapping, token-budget history
//! selection, and the stepwise orchestration of a streamed response —
//! begin with an empty message, apply deltas as they arrive, finish by
//! persisting and announcing the result.

use vstd::prelude::*;
use vstd::string::*;
use crate::database::Database;
use crate::text::str_eq;
use crate::types::Chat;
use crate::types::ChatMsg;
use crate::types::ChatMsgView;
use crate::types::Event;
use crate::types::MsgDelta;
use crate::types::OpenaiChatMessage;
use crate::types::OpenaiChatReq;
use crate::types::OpenaiChatRole;
use crate::types::OpenaiStreamResMsg;
use crate::types::gen_id;
use crate::types::now_millis;

verus! {

broadcast use vstd::string::group_string_axioms;

/// The hard token budget for one completion request.
pub const TOKEN_LIMIT: usize = 100000;

/// The secondary, smaller budget that biases selection toward many
/// recent short messages over a few long ones.
pub const RECENCY_TOKEN_LIMIT: usize = 3500;

/// How far back, in milliseconds, a message may lie once the current
/// interactive burst has begun.
pub const RECENCY_CUTOFF_MILLIS: i64 = 600000;

/// The payload of a full-orchestration request.
#[derive(Debug)]
pub struct CreateOpenaiReq {
    pub model: String,
    pub chat_id: String,
    pub ins: Option<String>,
}

/// The wire name of a requested model.
pub fn parse_model(model: &str) -> (r: String)
    requires
        model@ == "gpt3.5"@ || model@ == "gpt4"@,
    ensures
        model@ == "gpt3.5"@ ==> r@ == "gpt-3.5-turbo"@,
        model@ == "gpt4"@ ==> r@ == "gpt-4"@,
{
    proof {
        reveal_strlit("gpt3.5");
        reveal_strlit("gpt4");
        assert("gpt3.5"@.len() == 6);
        assert("gpt4"@.len() == 4);
        assert("gpt3.5"@ != "gpt4"@);
    }
    if str_eq(model, "gpt3.5") {
        String::from_str("gpt-3.5-turbo")
    } else {
        String::from_str("gpt-4")
    }
}

/// The token total that the optional instructions contribute: they are
/// counted only when they fit the budget by themselves.
pub open spec fn instruction_total(ins_tokens: usize) -> nat {
    if ins_tokens <= TOKEN_LIMIT {
        ins_tokens as nat
    } else {
        0
    }
}

/// How many more messages the newest-first walk takes, having already
/// taken `taken` messages summing to `total` tokens. The walk stops at
/// the first message that would burst the budget, at the first message
/// older than the recency cutoff once one message is in, and at the
/// secondary budget once more than two are in.
pub open spec fn sel_extra(
    msgs: Seq<ChatMsgView>,
    counts: Seq<usize>,
    now: int,
    taken: nat,
    total: nat,
) -> nat
    decreases msgs.len(),
{
    if msgs.len() == 0 || msgs.len() != counts.len() {
        0
    } else if total + counts.last() > TOKEN_LIMIT {
        0
    } else if taken >= 1 && msgs.last().datetime < now - RECENCY_CUTOFF_MILLIS {
        0
    } else if taken > 2 && total > RECENCY_TOKEN_LIMIT {
        0
    } else {
        1 + sel_extra(
            msgs.drop_last(),
            counts.drop_last(),
            now,
            taken + 1,
            total + counts.last() as nat,
        )
    }
}

/// The token total the walk ends with.
pub open spec fn sel_total(
    msgs: Seq<ChatMsgView>,
    counts: Seq<usize>,
    now: int,
    taken: nat,
    total: nat,
) -> nat
    decreases msgs.len(),
{
    if msgs.len() == 0 || msgs.len() != counts.len() {
        total
    } else if total + counts.last() > TOKEN_LIMIT {
        total
    } else if taken >= 1 && msgs.last().datetime < now - RECENCY_CUTOFF_MILLIS {
        total
    } else if taken > 2 && total > RECENCY_TOKEN_LIMIT {
        total
    } else {
        sel_total(
            msgs.drop_last(),
            counts.drop_last(),
            now,
            taken + 1,
            total + counts.last() as nat,
        )
    }
}

/// How many of the chat's most recent messages one request includes,
/// given each message's token count and the starting total.
pub open spec fn sel_count(
    msgs: Seq<ChatMsgView>,
    counts: Seq<usize>,
    now: int,
    total0: nat,
) -> nat {
    sel_extra(msgs, counts, now, 0, total0)
}

/// Token-budget truncation: however the walk ends, the selected
/// messages' token counts — on top of what was already counted — never
/// sum past the budget, and no more messages are selected than exist.
pub proof fn lemma_token_budget(
    msgs: Seq<ChatMsgView>,
    counts: Seq<usize>,
    now: int,
    taken: nat,
    total: nat,
)
    requires
        total <= TOKEN_LIMIT,
    ensures
        sel_total(msgs, counts, now, taken, total) <= TOKEN_LIMIT,
        sel_extra(msgs, counts, now, taken, total) <= msgs.len(),
    decreases msgs.len(),
{
    if msgs.len() == 0 || msgs.len() != counts.len() {
    } else if total + counts.last() > TOKEN_LIMIT {
    } else if taken >= 1 && msgs.last().datetime < now - RECENCY_CUTOFF_MILLIS {
    } else if taken > 2 && total > RECENCY_TOKEN_LIMIT {
    } else {
        lemma_token_budget(
            msgs.drop_last(),
            counts.drop_last(),
            now,
            taken + 1,
            total + counts.last() as nat,
        );
    }
}

/// Whether a provider-request message renders this chat message: same
/// text, the assistant role for bot messages, the user role otherwise.
pub open spec fn renders_msg(m: ChatMsgView, om: OpenaiChatMessage) -> bool {
    &&& om.content@ == m.message
    &&& if m.bot {
        om.role is Assistant
    } else {
        om.role is User
    }
}

/// Walks the messages newest-first and returns how many fit, matching
/// `sel_count`.
fn select_suffix_len(chat: &Chat, counts: &Vec<usize>, ins_tokens: usize, now: i64) -> (k: usize)
    requires
        counts@.len() == chat.messages@.len(),
        now >= i64::MIN + RECENCY_CUTOFF_MILLIS,
    ensures
        k == sel_count(chat@.messages, counts@, now as int, instruction_total(ins_tokens)),
        k <= chat.messages@.len(),
{
    let n = chat.messages.len();
    let mut k: usize = 0;
    let mut total: usize = if ins_tokens <= TOKEN_LIMIT {
        ins_tokens
    } else {
        0
    };
    let ghost full_m = chat@.messages;
    let ghost full_c = counts@;
    let ghost total0 = instruction_total(ins_tokens);
    proof {
        assert(full_m.subrange(0, n as int) =~= full_m);
        assert(full_c.subrange(0, n as int) =~= full_c);
    }
    loop
        invariant_except_break
            k <= n,
            n == chat.messages@.len(),
            counts@.len() == n,
            full_m == chat@.messages,
            full_c == counts@,
            now >= i64::MIN + RECENCY_CUTOFF_MILLIS,
            total <= TOKEN_LIMIT,
            sel_extra(full_m, full_c, now as int, 0, total0) == k + sel_extra(
                full_m.subrange(0, n - k),
                full_c.subrange(0, n - k),
                now as int,
                k as nat,
                total as nat,
            ),
        ensures
            k <= n,
            k == sel_extra(full_m, full_c, now as int, 0, total0),
        decreases n - k,
    {
        proof {
            assert(full_m.subrange(0, n - k).len() == full_c.subrange(0, n - k).len());
        }
        if k >= n {
            proof {
                assert(full_m.subrange(0, 0).len() == 0);
            }
            break ;
        }
        let ghost pm = full_m.subrange(0, n - k);
        let ghost pc = full_c.subrange(0, n - k);
        proof {
            assert(pm.last() == full_m[n - k - 1]);
            assert(pc.last() == full_c[n - k - 1]);
            assert(pm.drop_last() =~= full_m.subrange(0, n - k - 1));
            assert(pc.drop_last() =~= full_c.subrange(0, n - k - 1));
        }
        let idx = n - 1 - k;
        let c = counts[idx];
        if c > TOKEN_LIMIT - total {
            break ;
        }
        if k >= 1 && chat.messages[idx].datetime < now - RECENCY_CUTOFF_MILLIS {
            break ;
        }
        if k > 2 && total > RECENCY_TOKEN_LIMIT {
            break ;
        }
        total = total + c;
        k = k + 1;
    }
    k
}

/// Builds the streamed completion request for a chat: the fixed system
/// instruction, then the selected most-recent messages in
/// chronological order.
pub fn build_chat_req(chat: &Chat, counts: &Vec<usize>, ins_tokens: usize, now: i64) -> (r:
    OpenaiChatReq)
    requires
        counts@.len() == chat.messages@.len(),
        now >= i64::MIN + RECENCY_CUTOFF_MILLIS,
    ensures
        r.stream == true,
        r.model@ == "gpt-4-1106-preview"@,
        ({
            let n = chat@.messages.len();
            let k = sel_count(chat@.messages, counts@, now as int, instruction_total(ins_tokens));
            &&& r.messages@.len() == k + 1
            &&& r.messages@[0].role is System
            &&& r.messages@[0].content@
                == "Your name is catty and you are helpfull cute personal assistant made by Cow."@
            &&& forall|i: int|
                1 <= i <= k ==> renders_msg(chat@.messages[n - k + i - 1], #[trigger] r.messages@[i])
        }),
{
    let n = chat.messages.len();
    let k = select_suffix_len(chat, counts, ins_tokens, now);
    let mut messages: Vec<OpenaiChatMessage> = Vec::new();
    messages.push(
        OpenaiChatMessage {
            role: OpenaiChatRole::System,
            content: String::from_str(
                "Your name is catty and you are helpfull cute personal assistant made by Cow.",
            ),
        },
    );
    let mut i: usize = n - k;
    while i < n
        invariant
            n - k <= i <= n,
            k <= n,
            n == chat.messages@.len(),
            messages@.len() == 1 + i - (n - k),
            messages@[0].role is System,
            messages@[0].content@
                == "Your name is catty and you are helpfull cute personal assistant made by Cow."@,
            forall|j: int|
                1 <= j < messages@.len() ==> renders_msg(
                    chat@.messages[n - k + j - 1],
                    #[trigger] messages@[j],
                ),
        decreases n - i,
    {
        let m = &chat.messages[i];
        let role = if m.bot {
            OpenaiChatRole::Assistant
        } else {
            OpenaiChatRole::User
        };
        messages.push(OpenaiChatMessage { role, content: m.message.clone() });
        i = i + 1;
    }
    OpenaiChatReq { model: String::from_str("gpt-4-1106-preview"), messages, stream: true }
}

/// Builds the title-summarization request: the same trimmed history,
/// in chronological order, followed by the short summarization
/// instruction.
pub fn build_title_req(chat: &Chat, counts: &Vec<usize>, now: i64) -> (r: OpenaiChatReq)
    requires
        counts@.len() == chat.messages@.len(),
        now >= i64::MIN + RECENCY_CUTOFF_MILLIS,
    ensures
        r.stream == true,
        r.model@ == "gpt-3.5-turbo"@,
        ({
            let n = chat@.messages.len();
            let k = sel_count(chat@.messages, counts@, now as int, 0);
            &&& r.messages@.len() == k + 1
            &&& forall|i: int|
                0 <= i < k ==> renders_msg(chat@.messages[n - k + i], #[trigger] r.messages@[i])
            &&& r.messages@[k as int].role is User
            &&& r.messages@[k as int].content@
                == "summarise this conversation with very short sentence. Be very brief it is important!!"@
        }),
{
    let n = chat.messages.len();
    let k = select_suffix_len(chat, counts, 0, now);
    let mut messages: Vec<OpenaiChatMessage> = Vec::new();
    let mut i: usize = n - k;
    while i < n
        invariant
            n - k <= i <= n,
            k <= n,
            n == chat.messages@.len(),
            messages@.len() == i - (n - k),
            forall|j: int|
                0 <= j < messages@.len() ==> renders_msg(
                    chat@.messages[n - k + j],
                    #[trigger] messages@[j],
                ),
        decreases n - i,
    {
        let m = &chat.messages[i];
        let role = if m.bot {
            OpenaiChatRole::Assistant
        } else {
            OpenaiChatRole::User
        };
        messages.push(OpenaiChatMessage { role, content: m.message.clone() });
        i = i + 1;
    }
    messages.push(
        OpenaiChatMessage {
            role: OpenaiChatRole::User,
            content: String::from_str(
                "summarise this conversation with very short sentence. Be very brief it is important!!",
            ),
        },
    );
    OpenaiChatReq { model: String::from_str("gpt-3.5-turbo"), messages, stream: true }
}

/// The text the first choice of a streamed chunk carries, if any.
pub open spec fn delta_content(res: OpenaiStreamResMsg) -> Option<Seq<char>> {
    if res.choices@.len() > 0 {
        match res.choices@[0].delta.content {
            Option::Some(d) => Option::Some(d@),
            Option::None => Option::None,
        }
    } else {
        Option::None
    }
}

/// Starts a model response: a fresh, empty bot message for the chat,
/// and the placeholder event announcing it.
pub fn begin_response(chat_id: &str, model: &str) -> (r: (ChatMsg, Event))
    ensures
        r.0.message@.len() == 0,
        r.0.bot == true,
        r.0.chat_id@ == chat_id@,
        r.0.user@ == "Catty"@,
        r.0.user_id@ == model@,
        r.0.token_count == 0,
        r.0.id@.len() == 36,
        r.1 matches Event::NewMsg { msg } && msg == r.0,
{
    let msg = ChatMsg {
        id: gen_id(),
        chat_id: String::from_str(chat_id),
        message: String::new(),
        token_count: 0,
        user: String::from_str("Catty"),
        user_id: String::from_str(model),
        datetime: now_millis(),
        bot: true,
    };
    let ev = Event::NewMsg { msg: msg.clone() };
    (msg, ev)
}

/// Applies one streamed chunk to the in-progress message: appends the
/// first choice's delta, if any, and returns the matching broadcast
/// event; a chunk with no content changes nothing.
pub fn apply_stream_msg(msg: &mut ChatMsg, res: &OpenaiStreamResMsg) -> (ev: Option<Event>)
    ensures
        match delta_content(*res) {
            Option::Some(d) => {
                &&& final(msg).message@ == old(msg).message@ + d
                &&& final(msg).id == old(msg).id
                &&& final(msg).chat_id == old(msg).chat_id
                &&& final(msg).token_count == old(msg).token_count
                &&& final(msg).user == old(msg).user
                &&& final(msg).user_id == old(msg).user_id
                &&& final(msg).datetime == old(msg).datetime
                &&& final(msg).bot == old(msg).bot
                &&& ev matches Some(e) && e matches Event::MsgDelta(md) && md.chat_id@ == old(
                    msg,
                ).chat_id@ && md.msg_id@ == old(msg).id@ && md.delta@ == d
            },
            Option::None => *final(msg) == *old(msg) && ev is None,
        },
{
    if res.choices.len() > 0 {
        match &res.choices[0].delta.content {
            Option::Some(d) => {
                msg.message.append(d.as_str());
                Option::Some(
                    Event::MsgDelta(
                        MsgDelta {
                            chat_id: msg.chat_id.clone(),
                            msg_id: msg.id.clone(),
                            delta: d.clone(),
                        },
                    ),
                )
            },
            Option::None => Option::None,
        }
    } else {
        Option::None
    }
}

/// Finishes a response: records the final token count on the message,
/// appends it to the chat, stores the chat (marking it dirty), and
/// returns the completion event.
pub fn finish_response(db: &mut Database, chat: Chat, msg: ChatMsg, token_count: usize) -> (ev:
    Event)
    requires
        old(db).wf(),
    ensures
        final(db).wf(),
        ({
            let stored = ChatMsgView { token_count: token_count as nat, ..msg@ };
            let cv = crate::types::ChatView {
                messages: chat@.messages.push(stored),
                ..chat@
            };
            &&& final(db).chats_map() == old(db).chats_map().insert(chat.id@, cv)
            &&& final(db).dirty_chats() == old(db).dirty_chats().insert(chat.id@)
            &&& final(db).personalities_map() == old(db).personalities_map()
            &&& final(db).dirty_personalities() == old(db).dirty_personalities()
            &&& final(db).deleted_personalities() == old(db).deleted_personalities()
            &&& ev matches Event::GenerationDone { chat_id, msg_id, msg: m, token_count: tc }
                && chat_id@ == chat.id@ && msg_id@ == msg.id@ && m@ == msg.message@ && tc
                == token_count
        }),
{
    let mut chat = chat;
    let mut msg = msg;
    let ghost chat0 = chat@;
    let ghost msg0 = msg@;
    msg.token_count = token_count;
    let ev = Event::GenerationDone {
        chat_id: chat.id.clone(),
        msg_id: msg.id.clone(),
        msg: msg.message.clone(),
        token_count,
    };
    proof {
        assert(msg@ =~= (ChatMsgView { token_count: token_count as nat, ..msg0 }));
    }
    chat.messages.push(msg);
    proof {
        assert(chat@.messages =~= chat0.messages.push(
            ChatMsgView { token_count: token_count as nat, ..msg0 },
        ));
        assert(chat@ =~= (crate::types::ChatView {
            messages: chat0.messages.push(ChatMsgView { token_count: token_count as nat, ..msg0 }),
            ..chat0
        }));
    }
    db.save_chat(chat);
    ev
}

/// Applies one streamed chunk of the title call: appends the delta to
/// the pending title and returns the matching broadcast event.
pub fn apply_title_delta(title: &mut String, chat_id: &str, res: &OpenaiStreamResMsg) -> (ev:
    Option<Event>)
    ensures
        match delta_content(*res) {
            Option::Some(d) => final(title)@ == old(title)@ + d && (ev matches Some(e) && (e
                matches Event::TitleDelta { chat_id: c, delta } && c@ == chat_id@ && delta@ == d)),
            Option::None => *final(title) == *old(title) && ev is None,
        },
{
    if res.choices.len() > 0 {
        match &res.choices[0].delta.content {
            Option::Some(d) => {
                title.append(d.as_str());
                Option::Some(
                    Event::TitleDelta { chat_id: String::from_str(chat_id), delta: d.clone() },
                )
            },
            Option::None => Option::None,
        }
    } else {
        Option::None
    }
}

/// Records the generated title on the chat.
pub fn set_title(chat: &mut Chat, title: String)
    ensures
        final(chat).title == Some(title),
        final(chat).id == old(chat).id,
        final(chat).messages == old(chat).messages,
{
    chat.title = Some(title);
}

} // verus!
