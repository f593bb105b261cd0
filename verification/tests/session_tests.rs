use aki::config::Config;
use aki::database::Database;
use aki::openai::apply_stream_msg;
use aki::openai::begin_response;
use aki::openai::finish_response;
use aki::session::Job;
use aki::session::Session;
use aki::session::handle_event;
use aki::types::Delta;
use aki::types::Event;
use aki::types::MsgToCli;
use aki::types::MsgToSrv;
use aki::types::OpenaiStreamChoice;
use aki::types::OpenaiStreamResMsg;
use aki::types::SendMsg;
use aki::types::User;

fn open_config() -> Config {
    Config::new()
}

fn gated_config() -> Config {
    let mut c = Config::new();
    c.login_required = Some(true);
    c.users = Some(vec![User { username: "alice".to_string(), password: "pw".to_string() }]);
    c.jwt_hs512_key = Some("test-signing-key".to_string());
    c
}

#[test]
fn auth_gate_rejects_everything_but_login_and_authenticate() {
    let config = gated_config();
    let mut db = Database::new();
    let mut session = Session::new();

    let commands = vec![
        MsgToSrv::GetChats,
        MsgToSrv::GetPersonalities,
        MsgToSrv::DelPersonality { id: "x".to_string() },
        MsgToSrv::GetChat { chat_id: "c".to_string() },
        MsgToSrv::SendMsg(SendMsg {
            chat_id: None,
            model: "gpt4".to_string(),
            instructions: None,
            txt: "hi".to_string(),
        }),
    ];
    for cmd in commands {
        let out = session.handle_msg(&mut db, &config, cmd);
        assert_eq!(out.replies.len(), 1);
        assert!(matches!(out.replies[0], MsgToCli::AuthError));
        assert!(!out.disconnect);
        assert!(out.events.is_empty());
        assert!(out.job.is_none());
        assert!(!session.authenticated);
    }
    // nothing reached the store
    assert_eq!(db.get_chat_metas().len(), 0);
}

#[test]
fn login_then_token_handshake() {
    let config = gated_config();
    let mut db = Database::new();
    let mut session = Session::new();

    // wrong password: explicit error, connection closes
    let out = session.handle_msg(
        &mut db,
        &config,
        MsgToSrv::Login { username: "alice".to_string(), password: "wrong".to_string() },
    );
    assert!(matches!(out.replies[0], MsgToCli::AuthError));
    assert!(out.disconnect);
    assert!(!session.authenticated);

    // right password: authenticated, token issued
    let out = session.handle_msg(
        &mut db,
        &config,
        MsgToSrv::Login { username: "alice".to_string(), password: "pw".to_string() },
    );
    assert!(session.authenticated);
    assert!(!out.disconnect);
    let token = match &out.replies[0] {
        MsgToCli::Authenticated { token, version } => {
            assert_eq!(version, "CUTE_PUPPY");
            token.clone()
        },
        other => panic!("expected Authenticated, got {:?}", other),
    };
    assert_ne!(token, "pw");

    // a second connection authenticates with the issued token
    let mut session2 = Session::new();
    let out = session2.handle_msg(&mut db, &config, MsgToSrv::Authenticate { token: token.clone() });
    assert!(session2.authenticated);
    assert_eq!(session2.user.as_deref(), Some("alice"));
    assert!(matches!(&out.replies[0], MsgToCli::Authenticated { .. }));

    // a mangled token is a retryable failure: reply, stay connected
    let mut session3 = Session::new();
    let mut bad = token.clone();
    bad.push('x');
    let out = session3.handle_msg(&mut db, &config, MsgToSrv::Authenticate { token: bad });
    assert!(matches!(out.replies[0], MsgToCli::AuthTokenInvalid));
    assert!(!out.disconnect);
    assert!(!session3.authenticated);
}

fn delta_chunk(text: &str) -> OpenaiStreamResMsg {
    OpenaiStreamResMsg {
        choices: vec![OpenaiStreamChoice {
            finish_reason: None,
            index: 0,
            delta: Delta { role: None, content: Some(text.to_string()) },
        }],
    }
}

#[test]
fn send_msg_without_chat_creates_streams_and_persists() {
    let config = open_config();
    let mut db = Database::new();
    let mut session = Session::new();

    let out = session.handle_msg(
        &mut db,
        &config,
        MsgToSrv::SendMsg(SendMsg {
            chat_id: None,
            model: "gpt4".to_string(),
            instructions: None,
            txt: "hi".to_string(),
        }),
    );

    // the fresh chat is announced: reply to the requester, event to all
    let chat_id = match &out.replies[0] {
        MsgToCli::ChatCreated { chat } => {
            assert!(chat.messages.is_empty());
            chat.id.clone()
        },
        other => panic!("expected ChatCreated, got {:?}", other),
    };
    assert!(matches!(&out.events[0], Event::NewChat { .. }));
    assert!(out.flush);
    let job_chat_id = match out.job {
        Some(Job::Openai { req }) => {
            assert_eq!(req.model, "gpt4");
            req.chat_id
        },
        other => panic!("expected an Openai job, got {:?}", other.is_some()),
    };
    assert_eq!(job_chat_id, chat_id);

    // the user message is already persisted in memory
    let chat = db.get_chat(&chat_id).unwrap();
    assert_eq!(chat.messages.len(), 1);
    assert_eq!(chat.messages[0].message, "hi");
    assert!(!chat.messages[0].bot);

    // generation: placeholder message, then deltas, then completion
    let (mut msg, ev) = begin_response(&chat_id, "gpt-4-1106-preview");
    match &ev {
        Event::NewMsg { msg: m } => assert_eq!(m.message, ""),
        other => panic!("expected NewMsg, got {:?}", other),
    }

    let ev = apply_stream_msg(&mut msg, &delta_chunk("Hello")).expect("a delta event");
    match &ev {
        Event::MsgDelta(d) => {
            assert_eq!(d.delta, "Hello");
            assert_eq!(d.chat_id, chat_id);
        },
        other => panic!("expected MsgDelta, got {:?}", other),
    }
    let ev = apply_stream_msg(&mut msg, &delta_chunk(" there")).expect("a delta event");
    match &ev {
        Event::MsgDelta(d) => assert_eq!(d.delta, " there"),
        other => panic!("expected MsgDelta, got {:?}", other),
    }
    assert_eq!(msg.message, "Hello there");

    // a chunk with no content changes nothing
    let quiet = OpenaiStreamResMsg { choices: vec![] };
    assert!(apply_stream_msg(&mut msg, &quiet).is_none());

    let ev = finish_response(&mut db, chat, msg, 2);
    match &ev {
        Event::GenerationDone { chat_id: c, msg: m, token_count, .. } => {
            assert_eq!(c, &chat_id);
            assert_eq!(m, "Hello there");
            assert_eq!(*token_count, 2);
        },
        other => panic!("expected GenerationDone, got {:?}", other),
    }

    // the chat is persisted with both messages: user then bot
    let chat = db.get_chat(&chat_id).unwrap();
    assert_eq!(chat.messages.len(), 2);
    assert!(!chat.messages[0].bot);
    assert!(chat.messages[1].bot);
    assert_eq!(chat.messages[1].message, "Hello there");
    assert_eq!(chat.messages[1].token_count, 2);
}

#[test]
fn send_msg_to_known_chat_appends() {
    let config = open_config();
    let mut db = Database::new();
    let mut session = Session::new();

    let out = session.handle_msg(
        &mut db,
        &config,
        MsgToSrv::CreateChat(aki::types::CreateChat { chat_id: "c1".to_string() }),
    );
    assert!(matches!(&out.replies[0], MsgToCli::ChatCreated { .. }));

    let out = session.handle_msg(
        &mut db,
        &config,
        MsgToSrv::SendMsg(SendMsg {
            chat_id: Some("c1".to_string()),
            model: "nosuch".to_string(),
            instructions: None,
            txt: "first".to_string(),
        }),
    );
    // the chat existed: no creation reply, no event, no job for an
    // unknown model
    assert!(out.replies.is_empty());
    assert!(out.events.is_empty());
    assert!(out.job.is_none());
    assert_eq!(db.get_chat("c1").unwrap().messages.len(), 1);
}

#[test]
fn del_msg_removes_only_that_message() {
    let config = open_config();
    let mut db = Database::new();
    let mut session = Session::new();

    session.handle_msg(
        &mut db,
        &config,
        MsgToSrv::SendMsg(SendMsg {
            chat_id: None,
            model: "none".to_string(),
            instructions: None,
            txt: "one".to_string(),
        }),
    );
    let chat_id = db.get_chat_metas()[0].id.clone();
    session.handle_msg(
        &mut db,
        &config,
        MsgToSrv::SendMsg(SendMsg {
            chat_id: Some(chat_id.clone()),
            model: "none".to_string(),
            instructions: None,
            txt: "two".to_string(),
        }),
    );
    let chat = db.get_chat(&chat_id).unwrap();
    assert_eq!(chat.messages.len(), 2);
    let victim = chat.messages[0].id.clone();

    let out = session.handle_msg(
        &mut db,
        &config,
        MsgToSrv::DelMsg { chat_id: chat_id.clone(), msg_id: victim.clone() },
    );
    match &out.replies[0] {
        MsgToCli::MsgDeleted { chat_id: c, msg_id: m } => {
            assert_eq!(c, &chat_id);
            assert_eq!(m, &victim);
        },
        other => panic!("expected MsgDeleted, got {:?}", other),
    }
    let chat = db.get_chat(&chat_id).unwrap();
    assert_eq!(chat.messages.len(), 1);
    assert_eq!(chat.messages[0].message, "two");

    // deleting from an unknown chat does nothing and answers nothing
    let out = session.handle_msg(
        &mut db,
        &config,
        MsgToSrv::DelMsg { chat_id: "nope".to_string(), msg_id: victim },
    );
    assert!(out.replies.is_empty());
}

#[test]
fn personality_commands_round_trip() {
    let config = open_config();
    let mut db = Database::new();
    let mut session = Session::new();

    let out = session.handle_msg(
        &mut db,
        &config,
        MsgToSrv::SavePersonality { id: Some("p1".to_string()), txt: "be brief".to_string() },
    );
    match &out.replies[0] {
        MsgToCli::PersonalitySaved { personality } => {
            assert_eq!(personality.id, "p1");
            assert_eq!(personality.txt, "be brief");
        },
        other => panic!("expected PersonalitySaved, got {:?}", other),
    }
    assert!(out.flush);

    // upsert by id: same id, new text
    session.handle_msg(
        &mut db,
        &config,
        MsgToSrv::SavePersonality { id: Some("p1".to_string()), txt: "be kind".to_string() },
    );
    let out = session.handle_msg(&mut db, &config, MsgToSrv::GetPersonalities);
    match &out.replies[0] {
        MsgToCli::Personalities(ps) => {
            assert_eq!(ps.personalities.len(), 1);
            assert_eq!(ps.personalities[0].txt, "be kind");
        },
        other => panic!("expected Personalities, got {:?}", other),
    }

    // no id: a fresh one is generated
    let out = session.handle_msg(
        &mut db,
        &config,
        MsgToSrv::SavePersonality { id: None, txt: "third".to_string() },
    );
    match &out.replies[0] {
        MsgToCli::PersonalitySaved { personality } => assert_eq!(personality.id.len(), 36),
        other => panic!("expected PersonalitySaved, got {:?}", other),
    }

    let out = session.handle_msg(
        &mut db,
        &config,
        MsgToSrv::DelPersonality { id: "p1".to_string() },
    );
    match &out.replies[0] {
        MsgToCli::PersonalityDeleted { id } => assert_eq!(id, "p1"),
        other => panic!("expected PersonalityDeleted, got {:?}", other),
    }
    assert!(db.get_personality("p1").is_none());
}

#[test]
fn events_translate_one_to_one() {
    let ev = Event::TitleDelta { chat_id: "c".to_string(), delta: "A t".to_string() };
    match handle_event(ev) {
        MsgToCli::TitleDelta { chat_id, delta } => {
            assert_eq!(chat_id, "c");
            assert_eq!(delta, "A t");
        },
        other => panic!("expected TitleDelta, got {:?}", other),
    }
    let ev = Event::GenerationDone {
        chat_id: "c".to_string(),
        msg_id: "m".to_string(),
        msg: "done".to_string(),
        token_count: 7,
    };
    match handle_event(ev) {
        MsgToCli::GenerationDone { chat_id, msg_id, msg } => {
            assert_eq!(chat_id, "c");
            assert_eq!(msg_id, "m");
            assert_eq!(msg, "done");
        },
        other => panic!("expected GenerationDone, got {:?}", other),
    }
}

#[test]
fn wrong_algorithm_token_is_fatal() {
    // a token signed under a different algorithm fails verification
    // with a non-retryable kind: the connection is torn down without a
    // prior reply
    let config = gated_config();
    let mut db = Database::new();
    let mut session = Session::new();

    let mut claims = serde_json::Map::new();
    claims.insert("exp".to_string(), serde_json::Value::from(10000000000u64));
    claims.insert("user".to_string(), serde_json::Value::from("alice"));
    let token = jsonwebtoken::encode(
        &jsonwebtoken::Header::new(jsonwebtoken::Algorithm::HS256),
        &serde_json::Value::Object(claims),
        &jsonwebtoken::EncodingKey::from_secret(b"test-signing-key"),
    )
    .unwrap();

    let out = session.handle_msg(&mut db, &config, MsgToSrv::Authenticate { token });
    assert!(out.disconnect);
    assert!(out.replies.is_empty());
    assert!(!session.authenticated);
}

#[test]
fn validly_signed_token_missing_a_claim_is_fatal() {
    // a token signed under the right key and algorithm but lacking the
    // user claim must not authenticate as some substitute identity: it
    // is a general failure and the connection closes
    let config = gated_config();
    let mut db = Database::new();
    let mut session = Session::new();

    let mut claims = serde_json::Map::new();
    claims.insert("sub".to_string(), serde_json::Value::from("b@b.com"));
    claims.insert("company".to_string(), serde_json::Value::from("ACME"));
    claims.insert("exp".to_string(), serde_json::Value::from(10000000000u64));
    let token = jsonwebtoken::encode(
        &jsonwebtoken::Header::new(jsonwebtoken::Algorithm::HS512),
        &serde_json::Value::Object(claims),
        &jsonwebtoken::EncodingKey::from_secret(b"test-signing-key"),
    )
    .unwrap();

    let out = session.handle_msg(&mut db, &config, MsgToSrv::Authenticate { token });
    assert!(out.disconnect);
    assert!(out.replies.is_empty());
    assert!(!session.authenticated);
    assert!(session.user.is_none());
}

#[test]
fn missing_signing_key_closes_the_connection() {
    let mut config = gated_config();
    config.jwt_hs512_key = None;
    let mut db = Database::new();

    // a login with valid credentials cannot authenticate without a key
    let mut session = Session::new();
    let out = session.handle_msg(
        &mut db,
        &config,
        MsgToSrv::Login { username: "alice".to_string(), password: "pw".to_string() },
    );
    assert!(out.disconnect);
    assert!(!session.authenticated);

    // a token handshake closes silently without a key
    let mut session2 = Session::new();
    let out = session2.handle_msg(
        &mut db,
        &config,
        MsgToSrv::Authenticate { token: "anything".to_string() },
    );
    assert!(out.disconnect);
    assert!(out.replies.is_empty());
    assert!(!session2.authenticated);
}
