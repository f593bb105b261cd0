use aki::args::ConfigKeys;
use aki::config::Config;
use aki::config::add_user;
use aki::config::apply_set;
use aki::config::config_get;
use aki::config::get_version;
use aki::random::pick_random_item;
use aki::random::random_step;
use aki::types::ChatMsg;
use aki::types::Event;
use aki::types::gen_id;
use aki::types::now_millis;

#[test]
fn version_is_reported() {
    assert_eq!(get_version(), "CUTE_PUPPY");
}

#[test]
fn set_and_get_round_trip() {
    let mut c = Config::new();
    assert!(apply_set(&mut c, ConfigKeys::OpenaiApikey, "k-123".to_string()).is_ok());
    assert_eq!(config_get(&c, ConfigKeys::OpenaiApikey).as_deref(), Some("k-123"));

    assert!(apply_set(&mut c, ConfigKeys::HS512Key, "shh".to_string()).is_ok());
    assert_eq!(config_get(&c, ConfigKeys::HS512Key).as_deref(), Some("shh"));

    assert!(apply_set(&mut c, ConfigKeys::ProjectFolder, "/tmp/p".to_string()).is_ok());
    assert_eq!(config_get(&c, ConfigKeys::ProjectFolder).as_deref(), Some("/tmp/p"));

    assert_eq!(config_get(&c, ConfigKeys::LoginRequired), None);
    assert!(apply_set(&mut c, ConfigKeys::LoginRequired, "true".to_string()).is_ok());
    assert_eq!(c.login_required, Some(true));
    assert_eq!(config_get(&c, ConfigKeys::LoginRequired).as_deref(), Some("true"));
    assert!(apply_set(&mut c, ConfigKeys::LoginRequired, "false".to_string()).is_ok());
    assert_eq!(c.login_required, Some(false));

    // anything else is rejected and nothing changes
    assert!(apply_set(&mut c, ConfigKeys::LoginRequired, "yes".to_string()).is_err());
    assert_eq!(c.login_required, Some(false));
}

#[test]
fn add_user_appends_to_the_list() {
    let mut c = Config::new();
    add_user(&mut c, "alice".to_string(), "pw1".to_string());
    add_user(&mut c, "bob".to_string(), "pw2".to_string());
    let users = c.users.as_ref().unwrap();
    assert_eq!(users.len(), 2);
    assert_eq!(users[0].username, "alice");
    assert_eq!(users[1].username, "bob");
    assert_eq!(users[1].password, "pw2");
}

#[test]
fn generated_ids_are_fresh_and_hyphenated_length() {
    let a = gen_id();
    let b = gen_id();
    assert_eq!(a.chars().count(), 36);
    assert_eq!(b.chars().count(), 36);
    assert_ne!(a, b);
}

#[test]
fn clock_reads_a_modern_time() {
    // after 2020-01-01 in milliseconds
    assert!(now_millis() > 1_577_836_800_000);
}

#[test]
fn pick_random_item_stays_in_the_slice() {
    let empty: Vec<u32> = Vec::new();
    assert!(pick_random_item(&empty).is_none());
    let items = vec![1u32, 2, 3];
    for _ in 0..20 {
        let x = *pick_random_item(&items).unwrap();
        assert!(items.contains(&x));
    }
}

#[test]
fn random_step_appends_a_word_from_the_vocabulary() {
    let words = vec!["meow".to_string(), "purr".to_string()];
    let mut msg = ChatMsg {
        id: "m".to_string(),
        chat_id: "c".to_string(),
        message: String::new(),
        token_count: 0,
        user: "random".to_string(),
        user_id: "random".to_string(),
        datetime: 0,
        bot: true,
    };
    let ev = random_step(&mut msg, &words);
    match ev {
        Event::MsgDelta(d) => {
            assert!(d.delta == "meow " || d.delta == "purr ");
            assert_eq!(d.chat_id, "c");
            assert_eq!(d.msg_id, "m");
            assert_eq!(msg.message, d.delta);
        },
        other => panic!("expected MsgDelta, got {:?}", other),
    }
}
