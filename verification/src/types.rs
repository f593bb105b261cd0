//! The data model: chats, messages, personalities, the wire command and
//! event unions, and the completion-provider request shapes.

use vstd::prelude::*;

verus! {

/// The mathematical shape of a message.
#[verifier::ext_equal]
pub struct ChatMsgView {
    pub id: Seq<char>,
    pub chat_id: Seq<char>,
    pub message: Seq<char>,
    pub token_count: nat,
    pub user: Seq<char>,
    pub user_id: Seq<char>,
    pub datetime: int,
    pub bot: bool,
}

/// The mathematical shape of a chat.
#[verifier::ext_equal]
pub struct ChatView {
    pub id: Seq<char>,
    pub title: Option<Seq<char>>,
    pub messages: Seq<ChatMsgView>,
}

/// The mathematical shape of a personality.
#[verifier::ext_equal]
pub struct PersonalityView {
    pub id: Seq<char>,
    pub txt: Seq<char>,
}

/// A configured login identity.
#[derive(Debug)]
pub struct User {
    pub username: String,
    pub password: String,
}

/// One message of a chat. `datetime` is milliseconds since the Unix epoch.
#[derive(Debug)]
pub struct ChatMsg {
    pub id: String,
    pub chat_id: String,
    pub message: String,
    pub token_count: usize,
    pub user: String,
    pub user_id: String,
    pub datetime: i64,
    pub bot: bool,
}

impl View for ChatMsg {
    type V = ChatMsgView;

    open spec fn view(&self) -> ChatMsgView {
        ChatMsgView {
            id: self.id@,
            chat_id: self.chat_id@,
            message: self.message@,
            token_count: self.token_count as nat,
            user: self.user@,
            user_id: self.user_id@,
            datetime: self.datetime as int,
            bot: self.bot,
        }
    }
}

impl Clone for ChatMsg {
    fn clone(&self) -> (r: Self)
        ensures
            r == *self,
    {
        ChatMsg {
            id: self.id.clone(),
            chat_id: self.chat_id.clone(),
            message: self.message.clone(),
            token_count: self.token_count,
            user: self.user.clone(),
            user_id: self.user_id.clone(),
            datetime: self.datetime,
            bot: self.bot,
        }
    }
}

/// A conversation thread: ordered messages plus an optional title.
#[derive(Debug)]
pub struct Chat {
    pub id: String,
    pub title: Option<String>,
    pub messages: Vec<ChatMsg>,
}

/// The view of an optional string.
pub open spec fn opt_str_view(o: Option<String>) -> Option<Seq<char>> {
    match o {
        Option::Some(t) => Option::Some(t@),
        Option::None => Option::None,
    }
}

impl View for Chat {
    type V = ChatView;

    open spec fn view(&self) -> ChatView {
        ChatView {
            id: self.id@,
            title: opt_str_view(self.title),
            messages: self.messages@.map_values(|m: ChatMsg| m@),
        }
    }
}

/// Copies an optional string, field for field.
pub fn clone_opt_string(o: &Option<String>) -> (r: Option<String>)
    ensures
        r == *o,
{
    match o {
        Option::Some(s) => Option::Some(s.clone()),
        Option::None => Option::None,
    }
}

impl Clone for Chat {
    fn clone(&self) -> (r: Self)
        ensures
            r@ == self@,
            r.id == self.id,
            r.title == self.title,
            r.messages@ == self.messages@,
    {
        let mut msgs: Vec<ChatMsg> = Vec::new();
        let mut i: usize = 0;
        while i < self.messages.len()
            invariant
                i <= self.messages@.len(),
                msgs@ =~= self.messages@.subrange(0, i as int),
            decreases self.messages@.len() - i,
        {
            msgs.push(self.messages[i].clone());
            i = i + 1;
        }
        proof {
            assert(msgs@ =~= self.messages@);
        }
        let r = Chat { id: self.id.clone(), title: clone_opt_string(&self.title), messages: msgs };
        proof {
            assert(r@ =~= self@);
        }
        r
    }
}

/// The listing entry for a chat: its id and title.
#[derive(Debug)]
pub struct ChatMeta {
    pub id: String,
    pub last_msg_datetime: Option<i64>,
    pub title: Option<String>,
}

#[derive(Debug)]
pub struct ChatIds {
    pub ids: Vec<String>,
}

/// A reusable system-prompt preset.
#[derive(Debug)]
pub struct Personality {
    pub id: String,
    pub txt: String,
}

impl View for Personality {
    type V = PersonalityView;

    open spec fn view(&self) -> PersonalityView {
        PersonalityView { id: self.id@, txt: self.txt@ }
    }
}

impl Clone for Personality {
    fn clone(&self) -> (r: Self)
        ensures
            r == *self,
    {
        Personality { id: self.id.clone(), txt: self.txt.clone() }
    }
}

#[derive(Debug)]
pub struct Personalities {
    pub personalities: Vec<Personality>,
}

/// The send-message command payload.
#[derive(Debug)]
pub struct SendMsg {
    pub chat_id: Option<String>,
    pub model: String,
    pub instructions: Option<String>,
    pub txt: String,
}

/// An incremental fragment of a streamed model response.
#[derive(Debug)]
pub struct MsgDelta {
    pub chat_id: String,
    pub msg_id: String,
    pub delta: String,
}

#[derive(Debug)]
pub struct GetChats {}

#[derive(Debug)]
pub struct CreateChat {
    pub chat_id: String,
}

/// Inbound commands a client may send over the session.
#[derive(Debug)]
pub enum MsgToSrv {
    SendMsg(SendMsg),
    GetChats,
    CreateChat(CreateChat),
    GetChat { chat_id: String },
    SavePersonality { id: Option<String>, txt: String },
    GetPersonalities,
    DelPersonality { id: String },
    DelMsg { chat_id: String, msg_id: String },
    Login { username: String, password: String },
    Authenticate { token: String },
    GenTitle { chat_id: String },
    StopGenration,
    GetProjects,
}

/// Outbound replies and relayed events, one variant per client-facing message.
#[derive(Debug)]
pub enum MsgToCli {
    MsgDelta(MsgDelta),
    ChatMetas { metas: Vec<ChatMeta> },
    ChatMeta(ChatMeta),
    Chat(Chat),
    Personalities(Personalities),
    PersonalitySaved { personality: Personality },
    PersonalityDeleted { id: String },
    ChatCreated { chat: Chat },
    NewMsg { msg: ChatMsg },
    NewChat { chat: Chat },
    MsgDeleted { chat_id: String, msg_id: String },
    Authenticated { token: String, version: String },
    AuthError,
    AuthTokenInvalid,
    TitleDelta { chat_id: String, delta: String },
    Projects { projects: Vec<String> },
    GenerationDone { chat_id: String, msg_id: String, msg: String },
}

/// Transient broadcast events, published once and never persisted.
#[derive(Debug)]
pub enum Event {
    MsgDelta(MsgDelta),
    TitleDelta { chat_id: String, delta: String },
    NewMsg { msg: ChatMsg },
    NewChat { chat: Chat },
    ChatMeta(ChatMeta),
    GenerationDone { chat_id: String, msg_id: String, msg: String, token_count: usize },
}

/// The role attached to one provider-request message.
#[derive(Debug)]
pub enum OpenaiChatRole {
    System,
    User,
    Assistant,
    Function,
}

impl Default for OpenaiChatRole {
    fn default() -> (r: Self)
        ensures
            r is User,
    {
        OpenaiChatRole::User
    }
}

#[derive(Debug)]
pub struct OpenaiChatMessage {
    pub role: OpenaiChatRole,
    pub content: String,
}

#[derive(Debug)]
pub enum CallFunction {
    NoCall,
    Auto,
}

impl Default for CallFunction {
    fn default() -> (r: Self)
        ensures
            r is NoCall,
    {
        CallFunction::NoCall
    }
}

/// The JSON body of a completion request.
#[derive(Debug)]
pub struct OpenaiChatReq {
    pub model: String,
    pub messages: Vec<OpenaiChatMessage>,
    pub stream: bool,
}

/// The delta carried by one streamed response choice.
#[derive(Debug)]
pub struct Delta {
    pub role: Option<String>,
    pub content: Option<String>,
}

#[derive(Debug)]
pub struct OpenaiStreamChoice {
    pub finish_reason: Option<String>,
    pub index: u32,
    pub delta: Delta,
}

/// One decoded chunk of the provider's event stream.
#[derive(Debug)]
pub struct OpenaiStreamResMsg {
    pub choices: Vec<OpenaiStreamChoice>,
}

pub const MODEL_RANDOM: &'static str = "random";

pub const MODEL_GPT_3_5: &'static str = "gpt3.5";

pub const MODEL_GPT_4: &'static str = "gpt4";

/// Relies on `uuid::Uuid::new_v4` and its hyphenated `to_string` form:
/// a fresh random identifier, 36 characters long.
#[verifier::external_body]
pub fn gen_id() -> (r: String)
    ensures
        r@.len() == 36,
{
    uuid::Uuid::new_v4().to_string()
}

/// Relies on `chrono::Utc::now`: the current wall-clock time as
/// milliseconds since the Unix epoch. Nothing further can be promised
/// of a clock reading.
#[verifier::external_body]
pub fn now_millis() -> i64 {
    chrono::Utc::now().timestamp_millis()
}

impl Chat {
    /// A fresh, empty, untitled chat under a newly generated id.
    pub fn new() -> (r: Chat)
        ensures
            r.title is None,
            r.messages@.len() == 0,
            r.id@.len() == 36,
    {
        Chat { id: gen_id(), title: None, messages: Vec::new() }
    }
}

} // verus!
