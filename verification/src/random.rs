//! The built-in random responder: a bot that answers with words drawn
//! at random from a vocabulary, streamed one delta at a time so clients
//! render it like any model response.

use vstd::prelude::*;
use vstd::string::*;
use crate::database::Database;
use crate::types::Chat;
use crate::types::ChatMsg;
use crate::types::ChatView;
use crate::types::Event;
use crate::types::MsgDelta;
use crate::types::gen_id;
use crate::types::now_millis;

verus! {

/// How many words one random response holds.
pub const RANDOM_WORD_COUNT: usize = 50;

/// Relies on `rand::Rng::gen_range` over `0..n`: a value below `n`,
/// uniformly drawn; the range is non-empty, so the call cannot panic.
#[verifier::external_body]
fn rand_below(n: usize) -> (r: usize)
    requires
        n >= 1,
    ensures
        r < n,
{
    rand::Rng::gen_range(&mut rand::thread_rng(), 0..n)
}

/// A randomly chosen element of the slice, or nothing when it is empty.
pub fn pick_random_item<T>(items: &[T]) -> (r: Option<&T>)
    ensures
        (items@.len() == 0) <==> (r is None),
        r matches Some(x) ==> exists|i: int| 0 <= i < items@.len() && *x == items@[i],
{
    if items.len() == 0 {
        None
    } else {
        let i = rand_below(items.len());
        Some(&items[i])
    }
}

/// Starts a random response: a fresh, empty bot message attributed to
/// the random responder, and the placeholder event announcing it.
pub fn begin_random_response(chat_id: &str) -> (r: (ChatMsg, Event))
    ensures
        r.0.message@.len() == 0,
        r.0.bot == true,
        r.0.chat_id@ == chat_id@,
        r.0.user@ == "random"@,
        r.0.user_id@ == "random"@,
        r.0.token_count == 0,
        r.0.id@.len() == 36,
        r.1 matches Event::NewMsg { msg } && msg == r.0,
{
    let msg = ChatMsg {
        id: gen_id(),
        chat_id: String::from_str(chat_id),
        message: String::new(),
        token_count: 0,
        user: String::from_str("random"),
        user_id: String::from_str("random"),
        datetime: now_millis(),
        bot: true,
    };
    let ev = Event::NewMsg { msg: msg.clone() };
    (msg, ev)
}

/// Appends one randomly chosen word and a trailing space to the
/// in-progress message, and returns the matching delta event.
pub fn random_step(msg: &mut ChatMsg, words: &Vec<String>) -> (ev: Event)
    requires
        words@.len() >= 1,
    ensures
        exists|i: int|
            0 <= i < words@.len() && ({
                let d = (#[trigger] words@[i])@ + " "@;
                &&& final(msg).message@ == old(msg).message@ + d
                &&& final(msg).id == old(msg).id
                &&& final(msg).chat_id == old(msg).chat_id
                &&& final(msg).token_count == old(msg).token_count
                &&& final(msg).user == old(msg).user
                &&& final(msg).user_id == old(msg).user_id
                &&& final(msg).datetime == old(msg).datetime
                &&& final(msg).bot == old(msg).bot
                &&& (ev matches Event::MsgDelta(md) && md.delta@ == d && md.chat_id@ == old(
                    msg,
                ).chat_id@ && md.msg_id@ == old(msg).id@)
            }),
{
    let i = rand_below(words.len());
    let delta = words[i].clone().concat(" ");
    msg.message.append(delta.as_str());
    let ev = Event::MsgDelta(
        MsgDelta { chat_id: msg.chat_id.clone(), msg_id: msg.id.clone(), delta },
    );
    ev
}

/// Finishes a random response: appends the message to the chat and
/// stores it, marking it dirty for the next flush.
pub fn finish_random_response(db: &mut Database, chat: Chat, msg: ChatMsg)
    requires
        old(db).wf(),
    ensures
        final(db).wf(),
        final(db).chats_map() == old(db).chats_map().insert(
            chat.id@,
            (ChatView { messages: chat@.messages.push(msg@), ..chat@ }),
        ),
        final(db).dirty_chats() == old(db).dirty_chats().insert(chat.id@),
        final(db).personalities_map() == old(db).personalities_map(),
        final(db).dirty_personalities() == old(db).dirty_personalities(),
        final(db).deleted_personalities() == old(db).deleted_personalities(),
{
    let ghost chat0 = chat@;
    let ghost msgv = msg@;
    let mut chat = chat;
    chat.messages.push(msg);
    proof {
        assert(chat@.messages =~= chat0.messages.push(msgv));
        assert(chat@ =~= (ChatView { messages: chat0.messages.push(msgv), ..chat0 }));
    }
    db.save_chat(chat);
}

} // verus!
