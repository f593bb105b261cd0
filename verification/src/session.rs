//! The per-connection session protocol: an authentication gate over the
//! full command set, driving the store and handing back the replies for
//! the requesting client, the events to broadcast, and the generation
//! job to spawn.
//!
//! The caller owns the socket and the locks: it decodes one inbound
//! command, calls `Session::handle_msg`, then writes the replies,
//! publishes the events, runs a flush cycle if asked, spawns the job,
//! and closes the connection when told to.

use vstd::prelude::*;
use vstd::string::*;
use crate::auth::JwtDecodeResult;
use crate::auth::decode_hs512_token;
use crate::auth::encode_hs512_token;
use crate::auth::hs512_token_of;
use crate::config::Config;
use crate::config::JWTKeyType;
use crate::config::get_version;
use crate::database::Database;
use crate::openai::CreateOpenaiReq;
use crate::text::str_eq;
use crate::types::Chat;
use crate::types::ChatMsg;
use crate::types::ChatMsgView;
use crate::types::ChatView;
use crate::types::Event;
use crate::types::MsgToCli;
use crate::types::MsgToSrv;
use crate::types::Personality;
use crate::types::SendMsg;
use crate::types::User;
use crate::types::gen_id;
use crate::types::now_millis;
use crate::types::opt_str_view;

verus! {

broadcast use vstd::string::group_string_axioms;

/// One connection's protocol state: whether authentication has
/// succeeded, and the recorded identity for message attribution.
pub struct Session {
    pub authenticated: bool,
    pub user: Option<String>,
}

/// A generation task the caller should spawn, detached from the
/// connection.
#[derive(Debug)]
pub enum Job {
    Random { chat_id: String },
    Openai { req: CreateOpenaiReq },
    GenTitle { chat_id: String },
}

/// Everything one command asks the caller to do.
#[derive(Debug)]
pub struct SessionOutput {
    pub replies: Vec<MsgToCli>,
    pub events: Vec<Event>,
    pub job: Option<Job>,
    pub flush: bool,
    pub disconnect: bool,
}

impl Session {
    /// A fresh, unauthenticated session.
    pub fn new() -> (r: Session)
        ensures
            !r.authenticated,
            r.user is None,
    {
        Session { authenticated: false, user: None }
    }

    /// Whether the auth guard still bars this session: the operator
    /// requires a login and none has succeeded yet.
    pub open spec fn awaiting_auth(self, config: Config) -> bool {
        config.login_required == Some(true) && !self.authenticated
    }
}

/// The commands the auth guard lets through.
pub open spec fn is_auth_cmd(m: MsgToSrv) -> bool {
    m is Login || m is Authenticate
}

/// The name a session's messages are attributed to.
pub open spec fn display_user(s: Session) -> Seq<char> {
    match s.user {
        Option::Some(u) => u@,
        Option::None => "User"@,
    }
}

/// The store is untouched: same maps, same dirty sets.
pub open spec fn db_unchanged(a: Database, b: Database) -> bool {
    &&& b.chats_map() == a.chats_map()
    &&& b.chat_views() == a.chat_views()
    &&& b.personalities_map() == a.personalities_map()
    &&& b.personality_views() == a.personality_views()
    &&& b.dirty_chats() == a.dirty_chats()
    &&& b.dirty_personalities() == a.dirty_personalities()
    &&& b.deleted_personalities() == a.deleted_personalities()
}

/// The command had no side effect beyond its replies.
pub open spec fn quiet(out: SessionOutput) -> bool {
    &&& out.events@.len() == 0
    &&& out.job is None
    &&& !out.flush
    &&& !out.disconnect
}

/// Whether a usable signing key is configured: the key type is the
/// HMAC-SHA512 default and a secret is present.
pub open spec fn hs512_key_ready(config: Config) -> bool {
    &&& match config.jwt_key_type {
        Option::Some(k) => k is HS512,
        Option::None => true,
    }
    &&& config.jwt_hs512_key is Some
}

/// Whether the first user entry carrying this username also carries
/// this password: how a login attempt is validated.
pub open spec fn creds_ok(config: Config, username: Seq<char>, password: Seq<char>) -> bool {
    &&& config.users is Some
    &&& exists|i: int|
        0 <= i < config.users->0@.len() && (#[trigger] config.users->0@[i]).username@ == username
            && config.users->0@[i].password@ == password && (forall|j: int|
            0 <= j < i ==> (#[trigger] config.users->0@[j]).username@ != username)
}

/// What a login attempt leaves behind. Valid credentials with a usable
/// signing key always authenticate, and the one reply carries the
/// freshly signed token and the build version; rejected credentials
/// answer with an auth error and close the connection; a missing or
/// unusable signing key closes it without authenticating.
pub open spec fn login_post(
    pre: Session,
    config: Config,
    username: Seq<char>,
    password: Seq<char>,
    post: Session,
    out: SessionOutput,
) -> bool {
    &&& post.user == pre.user
    &&& out.events@.len() == 0
    &&& out.job is None
    &&& !out.flush
    &&& (post.authenticated ==> ({
        &&& creds_ok(config, username, password)
        &&& !out.disconnect
        &&& out.replies@.len() == 1
        &&& (out.replies@[0] matches MsgToCli::Authenticated { token, version } && (version@
            == "CUTE_PUPPY"@ && (config.jwt_hs512_key matches Some(k) && token@ == hs512_token_of(
            vstd::utf8::encode_utf8(k@),
            "signing_key"@,
            "b@b.com"@,
            "ACME"@,
            10000000000u64,
            username,
        ))))
    }))
    &&& (creds_ok(config, username, password) && hs512_key_ready(config)
        ==> post.authenticated)
    &&& (!creds_ok(config, username, password) ==> !post.authenticated && out.disconnect
        && out.replies@.len() == 1 && out.replies@[0] is AuthError)
    &&& (creds_ok(config, username, password) && !post.authenticated ==> out.disconnect)
}

/// What a token handshake leaves behind. Without a usable signing key
/// the connection closes and nothing changes. With one, the outcome
/// follows the verification result — which depends on the clock — and
/// `Session::apply_auth_result` fixes the response to each result
/// exactly: either the token verified and the session is authenticated
/// under the embedded identity, or a retryable failure is answered
/// with a token-invalid reply and no state change, or a fatal failure
/// closes the connection.
pub open spec fn auth_token_post(
    pre: Session,
    config: Config,
    token: Seq<char>,
    post: Session,
    out: SessionOutput,
) -> bool {
    &&& out.events@.len() == 0
    &&& out.job is None
    &&& !out.flush
    &&& (!hs512_key_ready(config) ==> post == pre && out.disconnect && out.replies@.len() == 0)
    &&& ({
        ||| (post.authenticated && post.user is Some && !out.disconnect && out.replies@.len() == 1
            && (out.replies@[0] matches MsgToCli::Authenticated { token: t, version: v } && t@
            == token && v@ == "CUTE_PUPPY"@))
        ||| (post == pre && !out.disconnect && out.replies@.len() == 1
            && out.replies@[0] is AuthTokenInvalid)
        ||| (post == pre && out.disconnect && out.replies@.len() == 0)
    })
}

fn find_user_idx(users: &Vec<User>, username: &str) -> (r: Option<usize>)
    ensures
        match r {
            Option::Some(i) => i < users@.len() && users@[i as int].username@ == username@ && (
            forall|j: int| 0 <= j < i ==> (#[trigger] users@[j]).username@ != username@),
            Option::None => forall|j: int|
                0 <= j < users@.len() ==> (#[trigger] users@[j]).username@ != username@,
        },
{
    let mut t: usize = 0;
    while t < users.len()
        invariant
            t <= users@.len(),
            forall|j: int| 0 <= j < t ==> (#[trigger] users@[j]).username@ != username@,
        decreases users@.len() - t,
    {
        if str_eq(users[t].username.as_str(), username) {
            return Some(t);
        }
        t = t + 1;
    }
    None
}

fn quiet_replies(replies: Vec<MsgToCli>) -> (out: SessionOutput)
    ensures
        out.replies == replies,
        quiet(out),
{
    SessionOutput { replies, events: Vec::new(), job: None, flush: false, disconnect: false }
}

impl Session {
    /// Validates a login attempt against the configured user list and,
    /// on success, issues a signed session token.
    fn handle_login(&mut self, config: &Config, username: &str, password: &str) -> (out:
        SessionOutput)
        requires
            !old(self).authenticated,
        ensures
            login_post(*old(self), *config, username@, password@, *final(self), out),
    {
        let users = match &config.users {
            Option::Some(users) => users,
            Option::None => {
                let mut replies: Vec<MsgToCli> = Vec::new();
                replies.push(MsgToCli::AuthError);
                let mut out = quiet_replies(replies);
                out.disconnect = true;
                return out;
            },
        };
        let i = match find_user_idx(users, username) {
            Option::Some(i) => i,
            Option::None => {
                let mut replies: Vec<MsgToCli> = Vec::new();
                replies.push(MsgToCli::AuthError);
                let mut out = quiet_replies(replies);
                out.disconnect = true;
                return out;
            },
        };
        if !str_eq(users[i].password.as_str(), password) {
            proof {
                assert(!creds_ok(*config, username@, password@));
            }
            let mut replies: Vec<MsgToCli> = Vec::new();
            replies.push(MsgToCli::AuthError);
            let mut out = quiet_replies(replies);
            out.disconnect = true;
            return out;
        }
        proof {
            assert(creds_ok(*config, username@, password@));
        }
        let key_usable = match &config.jwt_key_type {
            Option::Some(JWTKeyType::HS512) => true,
            Option::None => true,
            Option::Some(JWTKeyType::RSA) => false,
        };
        if !key_usable {
            let mut out = quiet_replies(Vec::new());
            out.disconnect = true;
            return out;
        }
        let key = match &config.jwt_hs512_key {
            Option::Some(k) => k,
            Option::None => {
                let mut out = quiet_replies(Vec::new());
                out.disconnect = true;
                return out;
            },
        };
        match encode_hs512_token(key.as_str().as_bytes(), username) {
            Option::Some(token) => {
                self.authenticated = true;
                let mut replies: Vec<MsgToCli> = Vec::new();
                replies.push(MsgToCli::Authenticated { token, version: get_version() });
                quiet_replies(replies)
            },
            Option::None => {
                // issuance always succeeds, by encode_hs512_token's contract
                proof {
                    assert(false);
                }
                let mut out = quiet_replies(Vec::new());
                out.disconnect = true;
                out
            },
        }
    }

    /// Applies a token-verification outcome to the session: verified
    /// claims authenticate it exactly once and record the embedded
    /// identity for message attribution, echoing the token back; a
    /// malformed token, a wrong signature or an expired one answers
    /// with a token-invalid reply and changes nothing, so the client
    /// may retry on the same connection; any other failure closes the
    /// connection without a reply.
    pub fn apply_auth_result(&mut self, res: JwtDecodeResult, token: String) -> (out:
        SessionOutput)
        requires
            !old(self).authenticated,
        ensures
            res matches JwtDecodeResult::Claims(c) ==> ({
                &&& final(self).authenticated
                &&& final(self).user == Some(c.user)
                &&& !out.disconnect
                &&& out.replies@.len() == 1
                &&& (out.replies@[0] matches MsgToCli::Authenticated { token: t, version: v } && t
                    == token && v@ == "CUTE_PUPPY"@)
            }),
            (res is InvalidToken || res is InvalidSignature || res is ExpiredSignature) ==> ({
                &&& *final(self) == *old(self)
                &&& !out.disconnect
                &&& out.replies@.len() == 1
                &&& out.replies@[0] is AuthTokenInvalid
            }),
            res is GeneralError ==> *final(self) == *old(self) && out.disconnect
                && out.replies@.len() == 0,
            out.events@.len() == 0,
            out.job is None,
            !out.flush,
    {
        match res {
            JwtDecodeResult::Claims(c) => {
                self.user = Some(c.user);
                self.authenticated = true;
                let mut replies: Vec<MsgToCli> = Vec::new();
                replies.push(MsgToCli::Authenticated { token, version: get_version() });
                quiet_replies(replies)
            },
            JwtDecodeResult::InvalidToken => {
                let mut replies: Vec<MsgToCli> = Vec::new();
                replies.push(MsgToCli::AuthTokenInvalid);
                quiet_replies(replies)
            },
            JwtDecodeResult::InvalidSignature => {
                let mut replies: Vec<MsgToCli> = Vec::new();
                replies.push(MsgToCli::AuthTokenInvalid);
                quiet_replies(replies)
            },
            JwtDecodeResult::ExpiredSignature => {
                let mut replies: Vec<MsgToCli> = Vec::new();
                replies.push(MsgToCli::AuthTokenInvalid);
                quiet_replies(replies)
            },
            JwtDecodeResult::GeneralError => {
                let mut out = quiet_replies(Vec::new());
                out.disconnect = true;
                out
            },
        }
    }

    /// Verifies a presented token. The retryable failure kinds keep the
    /// connection open for another attempt; a general verification
    /// failure tears it down.
    fn handle_authenticate(&mut self, config: &Config, token: String) -> (out: SessionOutput)
        requires
            !old(self).authenticated,
        ensures
            auth_token_post(*old(self), *config, token@, *final(self), out),
    {
        let key_usable = match &config.jwt_key_type {
            Option::Some(JWTKeyType::HS512) => true,
            Option::None => true,
            Option::Some(JWTKeyType::RSA) => false,
        };
        if !key_usable {
            let mut out = quiet_replies(Vec::new());
            out.disconnect = true;
            return out;
        }
        let key = match &config.jwt_hs512_key {
            Option::Some(k) => k,
            Option::None => {
                let mut out = quiet_replies(Vec::new());
                out.disconnect = true;
                return out;
            },
        };
        let res = decode_hs512_token(key.as_str().as_bytes(), token.as_str());
        self.apply_auth_result(res, token)
    }
}

/// Which generation job a requested model name dispatches.
pub open spec fn job_for_model(
    model: Seq<char>,
    chat_id: Seq<char>,
    ins: Option<Seq<char>>,
    job: Option<Job>,
) -> bool {
    if model == "random"@ {
        job matches Some(Job::Random { chat_id: c }) && c@ == chat_id
    } else if model == "gpt3.5"@ || model == "gpt4"@ {
        job matches Some(Job::Openai { req }) && req.model@ == model && req.chat_id@ == chat_id
            && opt_str_view(req.ins) == ins
    } else {
        job is None
    }
}

/// The view of the message a send command appends: the given text,
/// attributed to the session's identity, not a bot message.
pub open spec fn user_msg_view(
    nm: ChatMsgView,
    chat_id: Seq<char>,
    txt: Seq<char>,
    user: Seq<char>,
) -> bool {
    &&& nm.chat_id == chat_id
    &&& nm.message == txt
    &&& nm.bot == false
    &&& nm.user == user
    &&& nm.user_id == user
    &&& nm.token_count == 0
}

/// What a send command leaves behind: the text appended to the target
/// chat as a new message, the chat stored and dirty, a flush asked
/// for, and a generation job for the requested model. When no chat
/// with the given id exists (or none was named), a fresh empty chat is
/// created first, announced to the requester and broadcast to all.
pub open spec fn send_msg_post(
    pre_s: Session,
    pre_db: Database,
    sm: SendMsg,
    post_db: Database,
    out: SessionOutput,
) -> bool {
    &&& out.flush
    &&& !out.disconnect
    &&& post_db.personalities_map() == pre_db.personalities_map()
    &&& post_db.dirty_personalities() == pre_db.dirty_personalities()
    &&& post_db.deleted_personalities() == pre_db.deleted_personalities()
    &&& if sm.chat_id matches Some(cid) && pre_db.chats_map().contains_key(cid@) {
        let cid = sm.chat_id->0;
        let oldc = pre_db.chats_map()[cid@];
        &&& out.replies@.len() == 0
        &&& out.events@.len() == 0
        &&& exists|nm: ChatMsgView|
            user_msg_view(nm, cid@, sm.txt@, display_user(pre_s)) && post_db.chats_map()
                == pre_db.chats_map().insert(
                cid@,
                (ChatView { messages: oldc.messages.push(nm), ..oldc }),
            )
        &&& post_db.dirty_chats() == pre_db.dirty_chats().insert(cid@)
        &&& job_for_model(sm.model@, cid@, opt_str_view(sm.instructions), out.job)
    } else {
        &&& out.replies@.len() == 1
        &&& out.events@.len() == 1
        &&& (out.replies@[0] matches MsgToCli::ChatCreated { chat } && ({
            &&& chat@.messages.len() == 0
            &&& chat@.title is None
            &&& (out.events@[0] matches Event::NewChat { chat: c2 } && c2@ == chat@)
            &&& exists|nm: ChatMsgView|
                user_msg_view(nm, chat.id@, sm.txt@, display_user(pre_s)) && post_db.chats_map()
                    == pre_db.chats_map().insert(
                    chat.id@,
                    (ChatView { id: chat.id@, title: None, messages: seq![nm] }),
                )
            &&& post_db.dirty_chats() == pre_db.dirty_chats().insert(chat.id@)
            &&& job_for_model(sm.model@, chat.id@, opt_str_view(sm.instructions), out.job)
        }))
    }
}

/// Resolves the model name to a generation job.
fn job_for(model: &str, chat_id: &String, ins: Option<String>) -> (job: Option<Job>)
    ensures
        job_for_model(model@, chat_id@, opt_str_view(ins), job),
{
    if str_eq(model, "random") {
        Some(Job::Random { chat_id: chat_id.clone() })
    } else if str_eq(model, "gpt3.5") || str_eq(model, "gpt4") {
        Some(
            Job::Openai {
                req: CreateOpenaiReq {
                    model: String::from_str(model),
                    chat_id: chat_id.clone(),
                    ins,
                },
            },
        )
    } else {
        None
    }
}

fn do_send_msg(session: &Session, db: &mut Database, sm: SendMsg) -> (out: SessionOutput)
    requires
        old(db).wf(),
    ensures
        final(db).wf(),
        send_msg_post(*session, *old(db), sm, *final(db), out),
{
    let mut replies: Vec<MsgToCli> = Vec::new();
    let mut events: Vec<Event> = Vec::new();
    let found = match &sm.chat_id {
        Option::Some(cid) => db.get_chat(cid.as_str()),
        Option::None => None,
    };
    let fresh = found.is_none();
    let chat = match found {
        Option::Some(chat) => chat,
        Option::None => {
            let new_chat = Chat::new();
            replies.push(MsgToCli::ChatCreated { chat: new_chat.clone() });
            events.push(Event::NewChat { chat: new_chat.clone() });
            new_chat
        },
    };
    let user_name = match &session.user {
        Option::Some(u) => u.clone(),
        Option::None => String::from_str("User"),
    };
    let chat_id = chat.id.clone();
    let chatmsg = ChatMsg {
        id: gen_id(),
        chat_id: chat_id.clone(),
        message: sm.txt,
        token_count: 0,
        user: user_name.clone(),
        user_id: user_name,
        datetime: now_millis(),
        bot: false,
    };
    let ghost nm = chatmsg@;
    let ghost chat0 = chat@;
    let mut chat = chat;
    chat.messages.push(chatmsg);
    proof {
        assert(chat@.messages =~= chat0.messages.push(nm));
        assert(chat@ =~= (ChatView { messages: chat0.messages.push(nm), ..chat0 }));
        if fresh {
            assert(chat0.messages.push(nm) =~= seq![nm]);
            assert(chat@ =~= (ChatView { id: chat0.id, title: None, messages: seq![nm] }));
        }
    }
    db.save_chat(chat);
    let job = job_for(sm.model.as_str(), &chat_id, sm.instructions);
    proof {
        crate::database::lemma_chats_keyed_by_id(*old(db));
        if fresh {
            assert(user_msg_view(nm, chat_id@, sm.txt@, display_user(*session)) && db.chats_map()
                == old(db).chats_map().insert(
                chat_id@,
                (ChatView { id: chat_id@, title: None, messages: seq![nm] }),
            ));
        } else {
            let cid = sm.chat_id->0;
            let oldc = old(db).chats_map()[cid@];
            assert(chat_id@ == cid@);
            assert(chat0 == oldc);
            assert(user_msg_view(nm, cid@, sm.txt@, display_user(*session)) && db.chats_map()
                == old(db).chats_map().insert(
                cid@,
                (ChatView { messages: oldc.messages.push(nm), ..oldc }),
            ));
        }
    }
    SessionOutput { replies, events, job, flush: true, disconnect: false }
}

/// Translates one broadcast event into the client-facing message that
/// carries it, one for one.
pub fn handle_event(event: Event) -> (r: MsgToCli)
    ensures
        match event {
            Event::MsgDelta(d) => r matches MsgToCli::MsgDelta(d2) && d2 == d,
            Event::TitleDelta { chat_id, delta } => r matches MsgToCli::TitleDelta {
                chat_id: c,
                delta: d,
            } && c == chat_id && d == delta,
            Event::NewMsg { msg } => r matches MsgToCli::NewMsg { msg: m } && m == msg,
            Event::NewChat { chat } => r matches MsgToCli::NewChat { chat: c } && c == chat,
            Event::ChatMeta(meta) => r matches MsgToCli::ChatMeta(m2) && m2 == meta,
            Event::GenerationDone { chat_id, msg_id, msg, token_count } => r
                matches MsgToCli::GenerationDone { chat_id: c, msg_id: i, msg: m } && c == chat_id
                && i == msg_id && m == msg,
        },
{
    match event {
        Event::MsgDelta(d) => MsgToCli::MsgDelta(d),
        Event::TitleDelta { chat_id, delta } => MsgToCli::TitleDelta { chat_id, delta },
        Event::NewMsg { msg } => MsgToCli::NewMsg { msg },
        Event::NewChat { chat } => MsgToCli::NewChat { chat },
        Event::ChatMeta(meta) => MsgToCli::ChatMeta(meta),
        Event::GenerationDone { chat_id, msg_id, msg, token_count } => MsgToCli::GenerationDone {
            chat_id,
            msg_id,
            msg,
        },
    }
}
/// What creating a chat under a client-chosen id leaves behind: the
/// empty chat stored and dirty, and echoed to the requester alone.
pub open spec fn create_chat_post(
    pre_db: Database,
    chat_id: Seq<char>,
    post_db: Database,
    out: SessionOutput,
) -> bool {
    &&& out.replies@.len() == 1
    &&& (out.replies@[0] matches MsgToCli::ChatCreated { chat } && chat@ == (ChatView {
        id: chat_id,
        title: None,
        messages: Seq::empty(),
    }))
    &&& post_db.chats_map() == pre_db.chats_map().insert(
        chat_id,
        (ChatView { id: chat_id, title: None, messages: Seq::empty() }),
    )
    &&& post_db.dirty_chats() == pre_db.dirty_chats().insert(chat_id)
    &&& post_db.personalities_map() == pre_db.personalities_map()
    &&& post_db.dirty_personalities() == pre_db.dirty_personalities()
    &&& post_db.deleted_personalities() == pre_db.deleted_personalities()
    &&& quiet(out)
}

fn do_create_chat(db: &mut Database, chat_id: String) -> (out: SessionOutput)
    requires
        old(db).wf(),
    ensures
        final(db).wf(),
        create_chat_post(*old(db), chat_id@, *final(db), out),
{
    let chat = Chat { id: chat_id, title: None, messages: Vec::new() };
    let reply_chat = chat.clone();
    proof {
        assert(chat@.messages =~= Seq::<ChatMsgView>::empty());
        assert(chat@ =~= (ChatView { id: chat.id@, title: None, messages: Seq::empty() }));
    }
    db.save_chat(chat);
    let mut replies: Vec<MsgToCli> = Vec::new();
    replies.push(MsgToCli::ChatCreated { chat: reply_chat });
    quiet_replies(replies)
}

/// What a chat lookup answers: the full chat when the id is known, and
/// nothing otherwise; the store is untouched either way.
pub open spec fn get_chat_post(
    pre_db: Database,
    chat_id: Seq<char>,
    post_db: Database,
    out: SessionOutput,
) -> bool {
    &&& db_unchanged(pre_db, post_db)
    &&& quiet(out)
    &&& if pre_db.chats_map().contains_key(chat_id) {
        out.replies@.len() == 1 && (out.replies@[0] matches MsgToCli::Chat(c) && c@
            == pre_db.chats_map()[chat_id])
    } else {
        out.replies@.len() == 0
    }
}

fn do_get_chat(db: &Database, chat_id: &str) -> (out: SessionOutput)
    requires
        db.wf(),
    ensures
        get_chat_post(*db, chat_id@, *db, out),
{
    let mut replies: Vec<MsgToCli> = Vec::new();
    match db.get_chat(chat_id) {
        Option::Some(chat) => {
            replies.push(MsgToCli::Chat(chat));
        },
        Option::None => {},
    }
    quiet_replies(replies)
}

/// What the chat-listing command answers: one metadata entry per
/// stored chat, ids and titles matching, the store untouched.
pub open spec fn get_chats_post(pre_db: Database, post_db: Database, out: SessionOutput) -> bool {
    &&& db_unchanged(pre_db, post_db)
    &&& quiet(out)
    &&& out.replies@.len() == 1
    &&& (out.replies@[0] matches MsgToCli::ChatMetas { metas } && metas@.len()
        == pre_db.chat_views().len() && (forall|i: int|
        0 <= i < metas@.len() ==> (#[trigger] metas@[i]).id@ == pre_db.chat_views()[i].id
            && opt_str_view(metas@[i].title) == pre_db.chat_views()[i].title))
}

fn do_get_chats(db: &Database) -> (out: SessionOutput)
    ensures
        get_chats_post(*db, *db, out),
{
    let metas = db.get_chat_metas();
    let mut replies: Vec<MsgToCli> = Vec::new();
    replies.push(MsgToCli::ChatMetas { metas });
    quiet_replies(replies)
}

/// What saving a personality leaves behind: the preset stored under
/// the given id — or a fresh one — marked dirty, any pending deletion
/// of it cancelled, and the saved preset echoed to the requester.
pub open spec fn save_personality_post(
    pre_db: Database,
    id: Option<String>,
    txt: Seq<char>,
    post_db: Database,
    out: SessionOutput,
) -> bool {
    &&& out.flush
    &&& !out.disconnect
    &&& out.events@.len() == 0
    &&& out.job is None
    &&& post_db.chats_map() == pre_db.chats_map()
    &&& post_db.chat_views() == pre_db.chat_views()
    &&& post_db.dirty_chats() == pre_db.dirty_chats()
    &&& out.replies@.len() == 1
    &&& (out.replies@[0] matches MsgToCli::PersonalitySaved { personality } && ({
        &&& personality.txt@ == txt
        &&& (id matches Some(pid) ==> personality.id@ == pid@)
        &&& (id is None ==> personality.id@.len() == 36)
        &&& post_db.personalities_map() == pre_db.personalities_map().insert(
            personality.id@,
            personality@,
        )
        &&& post_db.dirty_personalities() == pre_db.dirty_personalities().insert(personality.id@)
        &&& post_db.deleted_personalities() == pre_db.deleted_personalities().remove(
            personality.id@,
        )
    }))
}

fn do_save_personality(db: &mut Database, id: Option<String>, txt: String) -> (out: SessionOutput)
    requires
        old(db).wf(),
    ensures
        final(db).wf(),
        save_personality_post(*old(db), id, txt@, *final(db), out),
{
    let pid = match &id {
        Option::Some(pid) => pid.clone(),
        Option::None => gen_id(),
    };
    let personality = Personality { id: pid, txt };
    db.save_personality(personality.clone());
    let mut replies: Vec<MsgToCli> = Vec::new();
    replies.push(MsgToCli::PersonalitySaved { personality });
    let mut out = quiet_replies(replies);
    out.flush = true;
    out
}

/// What the personality-listing command answers: every stored preset,
/// in internal order, the store untouched.
pub open spec fn get_personalities_post(
    pre_db: Database,
    post_db: Database,
    out: SessionOutput,
) -> bool {
    &&& db_unchanged(pre_db, post_db)
    &&& quiet(out)
    &&& out.replies@.len() == 1
    &&& (out.replies@[0] matches MsgToCli::Personalities(ps) && ps.personalities@.map_values(
        |p: Personality| p@,
    ) == pre_db.personality_views())
}

fn do_get_personalities(db: &Database) -> (out: SessionOutput)
    ensures
        get_personalities_post(*db, *db, out),
{
    let personalities = db.get_personalities();
    let mut replies: Vec<MsgToCli> = Vec::new();
    replies.push(MsgToCli::Personalities(crate::types::Personalities { personalities }));
    quiet_replies(replies)
}

/// What deleting a personality leaves behind: gone from memory at
/// once, its file removal pending, and the deletion confirmed to the
/// requesting session only.
pub open spec fn del_personality_post(
    pre_db: Database,
    id: Seq<char>,
    post_db: Database,
    out: SessionOutput,
) -> bool {
    &&& out.flush
    &&& !out.disconnect
    &&& out.events@.len() == 0
    &&& out.job is None
    &&& post_db.chats_map() == pre_db.chats_map()
    &&& post_db.chat_views() == pre_db.chat_views()
    &&& post_db.dirty_chats() == pre_db.dirty_chats()
    &&& post_db.personalities_map() == pre_db.personalities_map().remove(id)
    &&& post_db.dirty_personalities() == pre_db.dirty_personalities().remove(id)
    &&& post_db.deleted_personalities() == pre_db.deleted_personalities().insert(id)
    &&& out.replies@.len() == 1
    &&& (out.replies@[0] matches MsgToCli::PersonalityDeleted { id: i } && i@ == id)
}

fn do_del_personality(db: &mut Database, id: String) -> (out: SessionOutput)
    requires
        old(db).wf(),
    ensures
        final(db).wf(),
        del_personality_post(*old(db), id@, *final(db), out),
{
    db.del_personality(id.as_str());
    let mut replies: Vec<MsgToCli> = Vec::new();
    replies.push(MsgToCli::PersonalityDeleted { id });
    let mut out = quiet_replies(replies);
    out.flush = true;
    out
}

/// A message list without every message of the given id.
pub open spec fn without_msg(msgs: Seq<ChatMsgView>, msg_id: Seq<char>) -> Seq<ChatMsgView> {
    msgs.filter(|mv: ChatMsgView| mv.id != msg_id)
}

/// What deleting a message leaves behind: the chat stored again with
/// every message of that id removed, marked dirty, the deletion
/// confirmed to the requester; an unknown chat id changes nothing.
pub open spec fn del_msg_post(
    pre_db: Database,
    chat_id: Seq<char>,
    msg_id: Seq<char>,
    post_db: Database,
    out: SessionOutput,
) -> bool {
    &&& !out.disconnect
    &&& out.events@.len() == 0
    &&& out.job is None
    &&& post_db.personalities_map() == pre_db.personalities_map()
    &&& post_db.personality_views() == pre_db.personality_views()
    &&& post_db.dirty_personalities() == pre_db.dirty_personalities()
    &&& post_db.deleted_personalities() == pre_db.deleted_personalities()
    &&& if pre_db.chats_map().contains_key(chat_id) {
        let oldc = pre_db.chats_map()[chat_id];
        &&& out.flush
        &&& post_db.chats_map() == pre_db.chats_map().insert(
            chat_id,
            (ChatView { messages: without_msg(oldc.messages, msg_id), ..oldc }),
        )
        &&& post_db.dirty_chats() == pre_db.dirty_chats().insert(chat_id)
        &&& out.replies@.len() == 1
        &&& (out.replies@[0] matches MsgToCli::MsgDeleted { chat_id: c, msg_id: m } && c@
            == chat_id && m@ == msg_id)
    } else {
        &&& !out.flush
        &&& db_unchanged(pre_db, post_db)
        &&& out.replies@.len() == 0
    }
}

fn do_del_msg(db: &mut Database, chat_id: String, msg_id: String) -> (out: SessionOutput)
    requires
        old(db).wf(),
    ensures
        final(db).wf(),
        del_msg_post(*old(db), chat_id@, msg_id@, *final(db), out),
{
    let found = db.get_chat(chat_id.as_str());
    let mut chat = match found {
        Option::Some(chat) => chat,
        Option::None => {
            return quiet_replies(Vec::new());
        },
    };
    proof {
        crate::database::lemma_chats_keyed_by_id(*old(db));
    }
    let ghost oldc = old(db).chats_map()[chat_id@];
    let mut kept: Vec<ChatMsg> = Vec::new();
    let n = chat.messages.len();
    let mut i: usize = 0;
    while i < n
        invariant
            i <= n,
            n == chat.messages@.len(),
            kept@.map_values(|m: ChatMsg| m@) =~= without_msg(
                chat@.messages.subrange(0, i as int),
                msg_id@,
            ),
        decreases n - i,
    {
        let ghost prefix = chat@.messages.subrange(0, i as int);
        let ghost longer = chat@.messages.subrange(0, i + 1);
        proof {
            reveal_with_fuel(Seq::filter, 2);
            assert(longer.drop_last() =~= prefix);
            assert(longer.last() == chat@.messages[i as int]);
        }
        let m = &chat.messages[i];
        if !str_eq(m.id.as_str(), msg_id.as_str()) {
            kept.push(m.clone());
        }
        proof {
            reveal_with_fuel(Seq::filter, 2);
            assert(without_msg(longer, msg_id@) == if longer.last().id != msg_id@ {
                without_msg(prefix, msg_id@).push(longer.last())
            } else {
                without_msg(prefix, msg_id@)
            });
            assert(kept@.map_values(|m2: ChatMsg| m2@) =~= without_msg(longer, msg_id@));
        }
        i = i + 1;
    }
    proof {
        assert(chat@.messages.subrange(0, n as int) =~= chat@.messages);
    }
    chat.messages = kept;
    proof {
        assert(chat@ =~= (ChatView { messages: without_msg(oldc.messages, msg_id@), ..oldc }));
    }
    db.save_chat(chat);
    let mut replies: Vec<MsgToCli> = Vec::new();
    replies.push(MsgToCli::MsgDeleted { chat_id, msg_id });
    let mut out = quiet_replies(replies);
    out.flush = true;
    out
}
impl Session {
    /// Handles one inbound command against the auth guard and the
    /// store.
    ///
    /// While the guard bars the session, only a login or a token
    /// handshake is considered; every other command is answered with an
    /// auth error, the state does not advance and the store is
    /// untouched. Once the guard is down, each command's effect is
    /// stated by its own predicate; the session state never changes
    /// there.
    pub fn handle_msg(&mut self, db: &mut Database, config: &Config, msg: MsgToSrv) -> (out:
        SessionOutput)
        requires
            old(db).wf(),
        ensures
            final(db).wf(),
            old(self).awaiting_auth(*config) && !is_auth_cmd(msg) ==> ({
                &&& *final(self) == *old(self)
                &&& db_unchanged(*old(db), *final(db))
                &&& out.replies@.len() == 1
                &&& out.replies@[0] is AuthError
                &&& quiet(out)
            }),
            old(self).awaiting_auth(*config) ==> (msg matches MsgToSrv::Login {
                username,
                password,
            } ==> login_post(*old(self), *config, username@, password@, *final(self), out)
                && db_unchanged(*old(db), *final(db))),
            old(self).awaiting_auth(*config) ==> (msg matches MsgToSrv::Authenticate { token }
                ==> auth_token_post(*old(self), *config, token@, *final(self), out) && db_unchanged(
                *old(db),
                *final(db),
            )),
            !old(self).awaiting_auth(*config) ==> *final(self) == *old(self),
            !old(self).awaiting_auth(*config) ==> (msg matches MsgToSrv::SendMsg(sm)
                ==> send_msg_post(*old(self), *old(db), sm, *final(db), out)),
            !old(self).awaiting_auth(*config) && msg is GetChats ==> get_chats_post(
                *old(db),
                *final(db),
                out,
            ),
            !old(self).awaiting_auth(*config) ==> (msg matches MsgToSrv::CreateChat(args)
                ==> create_chat_post(*old(db), args.chat_id@, *final(db), out)),
            !old(self).awaiting_auth(*config) ==> (msg matches MsgToSrv::GetChat { chat_id }
                ==> get_chat_post(*old(db), chat_id@, *final(db), out)),
            !old(self).awaiting_auth(*config) ==> (msg matches MsgToSrv::SavePersonality {
                id,
                txt,
            } ==> save_personality_post(*old(db), id, txt@, *final(db), out)),
            !old(self).awaiting_auth(*config) && msg is GetPersonalities ==> get_personalities_post(
                *old(db),
                *final(db),
                out,
            ),
            !old(self).awaiting_auth(*config) ==> (msg matches MsgToSrv::DelPersonality { id }
                ==> del_personality_post(*old(db), id@, *final(db), out)),
            !old(self).awaiting_auth(*config) ==> (msg matches MsgToSrv::DelMsg {
                chat_id,
                msg_id,
            } ==> del_msg_post(*old(db), chat_id@, msg_id@, *final(db), out)),
            !old(self).awaiting_auth(*config) && msg is Login ==> db_unchanged(
                *old(db),
                *final(db),
            ) && out.replies@.len() == 0 && quiet(out),
            !old(self).awaiting_auth(*config) ==> (msg matches MsgToSrv::Authenticate { token }
                ==> db_unchanged(*old(db), *final(db)) && quiet(out) && out.replies@.len() == 1 && (
            out.replies@[0] matches MsgToCli::Authenticated { token: t, version: v } && t@ == token@
                && v@ == "CUTE_PUPPY"@)),
            !old(self).awaiting_auth(*config) ==> (msg matches MsgToSrv::GenTitle { chat_id } ==> ({
                &&& db_unchanged(*old(db), *final(db))
                &&& out.replies@.len() == 0
                &&& out.events@.len() == 0
                &&& !out.flush
                &&& !out.disconnect
                &&& (out.job matches Some(j) && (j matches Job::GenTitle { chat_id: c } && c@
                    == chat_id@))
            })),
            !old(self).awaiting_auth(*config) && (msg is StopGenration || msg is GetProjects)
                ==> db_unchanged(*old(db), *final(db)) && out.replies@.len() == 0 && quiet(out),
    {
        let awaiting = match &config.login_required {
            Option::Some(required) => *required && !self.authenticated,
            Option::None => false,
        };
        if awaiting {
            match msg {
                MsgToSrv::Login { username, password } => {
                    return self.handle_login(config, username.as_str(), password.as_str());
                },
                MsgToSrv::Authenticate { token } => {
                    return self.handle_authenticate(config, token);
                },
                _ => {
                    let mut replies: Vec<MsgToCli> = Vec::new();
                    replies.push(MsgToCli::AuthError);
                    return quiet_replies(replies);
                },
            }
        }
        match msg {
            MsgToSrv::SendMsg(sm) => do_send_msg(self, db, sm),
            MsgToSrv::GetChats => do_get_chats(db),
            MsgToSrv::CreateChat(args) => do_create_chat(db, args.chat_id),
            MsgToSrv::GetChat { chat_id } => do_get_chat(db, chat_id.as_str()),
            MsgToSrv::SavePersonality { id, txt } => do_save_personality(db, id, txt),
            MsgToSrv::GetPersonalities => do_get_personalities(db),
            MsgToSrv::DelPersonality { id } => do_del_personality(db, id),
            MsgToSrv::DelMsg { chat_id, msg_id } => do_del_msg(db, chat_id, msg_id),
            MsgToSrv::Login { username: _, password: _ } => quiet_replies(Vec::new()),
            MsgToSrv::Authenticate { token } => {
                let mut replies: Vec<MsgToCli> = Vec::new();
                replies.push(MsgToCli::Authenticated { token, version: get_version() });
                quiet_replies(replies)
            },
            MsgToSrv::GenTitle { chat_id } => {
                let mut out = quiet_replies(Vec::new());
                out.job = Some(Job::GenTitle { chat_id });
                out
            },
            MsgToSrv::StopGenration => quiet_replies(Vec::new()),
            MsgToSrv::GetProjects => quiet_replies(Vec::new()),
        }
    }
}

} // verus!
