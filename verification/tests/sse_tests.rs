use aki::sse::SSEvent;
use aki::sse::SSEventParser;

#[test]
fn test_parse_events() {
    let s = r#"
        data: {"object":"chat.completion.chunk","created":1690021109,"model":"gpt-3.5-turbo-0613","choices":[{"index":0,"delta":{"role":"assistant","content":""},"finish_reason":null}]}

        data: {"object":"chat.completion.chunk","created":1690021109,"model":"gpt-3.5-turbo-0613","choices":[{"index":0,"delta":{"content":"The"},"finish_reason":null}]
        "#;

    let mut reader = SSEventParser::new();
    reader.add_chunk(s);
    let events = reader.parse_events();
    assert_eq!(events.len(), 2);

    match &events[0] {
        SSEvent::Data(data) => {
            assert!(data.contains("assistant"));
        },
        _ => panic!("Expected SSEvent::Data"),
    }

    match &events[1] {
        SSEvent::Data(data) => {
            assert!(data.contains("The"));
        },
        _ => panic!("Expected SSEvent::Data"),
    }
}

#[test]
fn test_unfinished_event() {
    let s = r#"data: {"object":"c"#;
    let mut reader = SSEventParser::new();
    reader.add_chunk(s);
    let events = reader.parse_events();
    assert_eq!(events.len(), 0);
}

#[test]
fn test_finish_event() {
    let chunk_1 = r#"data: {"name":"#;
    let chunk_2 = r#""teppo","age":42}
        "#;
    let mut reader = SSEventParser::new();
    reader.add_chunk(chunk_1);
    let events = reader.parse_events();
    assert_eq!(events.len(), 0);
    reader.add_chunk(chunk_2);
    let events = reader.parse_events();
    assert_eq!(events.len(), 1);
}

#[test]
fn test_parse_one_leave_rest() {
    let chunk_1 = "data: {\"name\":\"\"teppo\",\"age\":42}\n        \n        data: {\"name\":";
    let chunk_2 = r#":"matti","age":43}
        "#;
    let mut reader = SSEventParser::new();
    reader.add_chunk(chunk_1);
    let events = reader.parse_events();
    assert_eq!(events.len(), 1);
    reader.add_chunk(chunk_2);
    let events = reader.parse_events();
    assert_eq!(events.len(), 1);
}

#[test]
fn test_works_with_emojis() {
    let chunk = "data: {\"object\":\"chat.completion.chunk\",\"created\":1699515189,\"model\":\"gpt-4-1106-preview\",\"choices\":[{\"index\":0,\"delta\":{\"content\":\" 😺\"},\"finish_reason\":null}]}\n    \n        ";

    let mut reader = SSEventParser::new();
    reader.add_chunk(chunk);
    let events = reader.parse_events();
    assert_eq!(events.len(), 1);
}

#[test]
fn test_done_sentinel() {
    let mut reader = SSEventParser::new();
    reader.add_chunk("data: [DONE]\n");
    let events = reader.parse_events();
    assert_eq!(events.len(), 1);
    assert!(matches!(events[0], SSEvent::Done));
}

#[test]
fn test_payload_is_trimmed() {
    let mut reader = SSEventParser::new();
    reader.add_chunk("data:   {\"a\":1}  \u{00A0}\n");
    let events = reader.parse_events();
    assert_eq!(events.len(), 1);
    match &events[0] {
        SSEvent::Data(data) => assert_eq!(data, "{\"a\":1}"),
        _ => panic!("Expected SSEvent::Data"),
    }
}

#[test]
fn test_split_inside_multibyte_prefix() {
    // the prefix itself arrives split across chunks, and a multi-byte
    // character straddles a later chunk boundary
    let mut reader = SSEventParser::new();
    reader.add_chunk("da");
    assert_eq!(reader.parse_events().len(), 0);
    reader.add_chunk("ta: he");
    assert_eq!(reader.parse_events().len(), 0);
    reader.add_chunk("llo \u{1F63A} wor");
    assert_eq!(reader.parse_events().len(), 0);
    reader.add_chunk("ld\n");
    let events = reader.parse_events();
    assert_eq!(events.len(), 1);
    match &events[0] {
        SSEvent::Data(data) => assert_eq!(data, "hello \u{1F63A} world"),
        _ => panic!("Expected SSEvent::Data"),
    }
}

#[test]
fn test_garbage_before_prefix_is_skipped() {
    let mut reader = SSEventParser::new();
    reader.add_chunk("xyzdata: payload\ntrailing");
    let events = reader.parse_events();
    assert_eq!(events.len(), 1);
    match &events[0] {
        SSEvent::Data(data) => assert_eq!(data, "payload"),
        _ => panic!("Expected SSEvent::Data"),
    }
    // the unconsumed trailing text is retained, not duplicated
    reader.add_chunk("data: next\n");
    let events = reader.parse_events();
    assert_eq!(events.len(), 1);
    match &events[0] {
        SSEvent::Data(data) => assert_eq!(data, "next"),
        _ => panic!("Expected SSEvent::Data"),
    }
}
