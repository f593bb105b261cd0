use aki::openai::RECENCY_CUTOFF_MILLIS;
use aki::openai::TOKEN_LIMIT;
use aki::openai::apply_title_delta;
use aki::openai::build_chat_req;
use aki::openai::build_title_req;
use aki::openai::parse_model;
use aki::openai::set_title;
use aki::types::Chat;
use aki::types::ChatMsg;
use aki::types::Delta;
use aki::types::OpenaiChatRole;
use aki::types::OpenaiStreamChoice;
use aki::types::OpenaiStreamResMsg;

fn msg(id: &str, text: &str, bot: bool, datetime: i64) -> ChatMsg {
    ChatMsg {
        id: id.to_string(),
        chat_id: "c".to_string(),
        message: text.to_string(),
        token_count: 0,
        user: "u".to_string(),
        user_id: "u".to_string(),
        datetime,
        bot,
    }
}

#[test]
fn parse_model_maps_wire_names() {
    assert_eq!(parse_model("gpt3.5"), "gpt-3.5-turbo");
    assert_eq!(parse_model("gpt4"), "gpt-4");
}

#[test]
fn chat_req_selects_recent_suffix_within_budget() {
    let now: i64 = 1_700_000_000_000;
    let chat = Chat {
        id: "c".to_string(),
        title: None,
        messages: vec![
            msg("m1", "oldest", false, now - 1000),
            msg("m2", "reply", true, now - 900),
            msg("m3", "latest", false, now - 800),
        ],
    };
    // the middle message alone bursts the budget: only the suffix after
    // it fits
    let counts = vec![10, TOKEN_LIMIT, 10];
    let req = build_chat_req(&chat, &counts, 0, now);
    assert!(req.stream);
    assert_eq!(req.model, "gpt-4-1106-preview");
    assert_eq!(req.messages.len(), 2);
    assert!(matches!(req.messages[0].role, OpenaiChatRole::System));
    assert_eq!(
        req.messages[0].content,
        "Your name is catty and you are helpfull cute personal assistant made by Cow."
    );
    assert_eq!(req.messages[1].content, "latest");
    assert!(matches!(req.messages[1].role, OpenaiChatRole::User));
}

#[test]
fn chat_req_keeps_chronological_order_and_roles() {
    let now: i64 = 1_700_000_000_000;
    let chat = Chat {
        id: "c".to_string(),
        title: None,
        messages: vec![
            msg("m1", "question", false, now - 300),
            msg("m2", "answer", true, now - 200),
            msg("m3", "follow-up", false, now - 100),
        ],
    };
    let counts = vec![5, 5, 5];
    let req = build_chat_req(&chat, &counts, 0, now);
    assert_eq!(req.messages.len(), 4);
    assert_eq!(req.messages[1].content, "question");
    assert!(matches!(req.messages[1].role, OpenaiChatRole::User));
    assert_eq!(req.messages[2].content, "answer");
    assert!(matches!(req.messages[2].role, OpenaiChatRole::Assistant));
    assert_eq!(req.messages[3].content, "follow-up");
}

#[test]
fn chat_req_stops_at_recency_cutoff() {
    let now: i64 = 1_700_000_000_000;
    let chat = Chat {
        id: "c".to_string(),
        title: None,
        messages: vec![
            msg("m1", "from an older session", false, now - RECENCY_CUTOFF_MILLIS as i64 - 5000),
            msg("m2", "current burst", false, now - 100),
        ],
    };
    let counts = vec![5, 5];
    let req = build_chat_req(&chat, &counts, 0, now);
    // once one message is in, anything older than the cutoff is left out
    assert_eq!(req.messages.len(), 2);
    assert_eq!(req.messages[1].content, "current burst");
}

#[test]
fn title_req_appends_summarize_instruction() {
    let now: i64 = 1_700_000_000_000;
    let chat = Chat {
        id: "c".to_string(),
        title: None,
        messages: vec![msg("m1", "hello", false, now - 100), msg("m2", "hi!", true, now - 50)],
    };
    let counts = vec![2, 2];
    let req = build_title_req(&chat, &counts, now);
    assert_eq!(req.model, "gpt-3.5-turbo");
    assert_eq!(req.messages.len(), 3);
    assert_eq!(req.messages[0].content, "hello");
    assert_eq!(req.messages[1].content, "hi!");
    assert!(matches!(req.messages[2].role, OpenaiChatRole::User));
    assert_eq!(
        req.messages[2].content,
        "summarise this conversation with very short sentence. Be very brief it is important!!"
    );
}

#[test]
fn title_deltas_accumulate_and_set() {
    let mut title = String::new();
    let chunk = OpenaiStreamResMsg {
        choices: vec![OpenaiStreamChoice {
            finish_reason: None,
            index: 0,
            delta: Delta { role: None, content: Some("A short".to_string()) },
        }],
    };
    let ev = apply_title_delta(&mut title, "c", &chunk).expect("a title delta event");
    match ev {
        aki::types::Event::TitleDelta { chat_id, delta } => {
            assert_eq!(chat_id, "c");
            assert_eq!(delta, "A short");
        },
        other => panic!("expected TitleDelta, got {:?}", other),
    }
    let chunk2 = OpenaiStreamResMsg {
        choices: vec![OpenaiStreamChoice {
            finish_reason: None,
            index: 0,
            delta: Delta { role: None, content: Some(" title".to_string()) },
        }],
    };
    apply_title_delta(&mut title, "c", &chunk2).expect("a title delta event");
    assert_eq!(title, "A short title");

    let mut chat = Chat { id: "c".to_string(), title: None, messages: Vec::new() };
    set_title(&mut chat, title);
    assert_eq!(chat.title.as_deref(), Some("A short title"));
}
