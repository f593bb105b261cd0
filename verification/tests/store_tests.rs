use aki::database::Database;
use aki::database::FileContent;
use aki::database::FileDocument;
use aki::types::Chat;
use aki::types::Personality;

fn chat(id: &str, title: Option<&str>) -> Chat {
    Chat { id: id.to_string(), title: title.map(|t| t.to_string()), messages: Vec::new() }
}

#[test]
fn save_chat_twice_keeps_one_latest() {
    let mut db = Database::new();
    db.save_chat(chat("c1", None));
    db.save_chat(chat("c1", Some("second")));

    let stored = db.get_chat("c1").expect("chat should be stored");
    assert_eq!(stored.title.as_deref(), Some("second"));
    assert_eq!(db.get_chat_metas().len(), 1);

    // exactly one file write is planned: the dirty set deduplicates
    let plan = db.flush_plan();
    assert_eq!(plan.chat_writes.len(), 1);
    assert_eq!(plan.personality_writes.len(), 0);
    assert_eq!(plan.deletes.len(), 0);
    match &plan.chat_writes[0].content {
        FileContent::Chat(c) => {
            assert_eq!(c.id, "c1");
            assert_eq!(c.title.as_deref(), Some("second"));
        },
        _ => panic!("expected a chat write"),
    }
    assert_eq!(plan.chat_writes[0].version, 1);
}

#[test]
fn flush_cycle_converges() {
    let mut db = Database::new();
    db.save_chat(chat("c1", None));
    db.save_chat(chat("c2", Some("t")));
    db.save_personality(Personality { id: "p1".to_string(), txt: "be kind".to_string() });
    db.del_personality("p2");

    let plan = db.flush_plan();
    assert_eq!(plan.chat_writes.len(), 2);
    assert_eq!(plan.personality_writes.len(), 1);
    assert_eq!(plan.deletes.len(), 1);
    assert_eq!(plan.deletes[0], "p2");

    // every disk operation succeeded: commit clears everything
    let saved_chats = vec!["c1".to_string(), "c2".to_string()];
    let saved_ps = vec!["p1".to_string()];
    let removed = vec!["p2".to_string()];
    db.flush_commit(&saved_chats, &saved_ps, &removed);

    let plan2 = db.flush_plan();
    assert_eq!(plan2.chat_writes.len(), 0);
    assert_eq!(plan2.personality_writes.len(), 0);
    assert_eq!(plan2.deletes.len(), 0);

    // the entities are still in memory
    assert!(db.get_chat("c1").is_some());
    assert!(db.get_personality("p1").is_some());
}

#[test]
fn failed_write_stays_dirty_for_retry() {
    let mut db = Database::new();
    db.save_chat(chat("ok", None));
    db.save_chat(chat("bad", None));

    let plan = db.flush_plan();
    assert_eq!(plan.chat_writes.len(), 2);

    // only "ok" was written successfully; "bad" stays pending
    let saved_chats = vec!["ok".to_string()];
    db.flush_commit(&saved_chats, &Vec::new(), &Vec::new());

    let plan2 = db.flush_plan();
    assert_eq!(plan2.chat_writes.len(), 1);
    match &plan2.chat_writes[0].content {
        FileContent::Chat(c) => assert_eq!(c.id, "bad"),
        _ => panic!("expected a chat write"),
    }

    // the retry succeeds and the dirty set empties
    let saved_chats = vec!["bad".to_string()];
    db.flush_commit(&saved_chats, &Vec::new(), &Vec::new());
    assert_eq!(db.flush_plan().chat_writes.len(), 0);
}

#[test]
fn del_personality_unknown_id_removes_nothing_and_finalizes() {
    let mut db = Database::new();
    db.save_personality(Personality { id: "keep".to_string(), txt: "x".to_string() });
    let saved = vec!["keep".to_string()];
    db.flush_commit(&Vec::new(), &saved, &Vec::new());

    // deleting an id that never existed: memory is unchanged, but the
    // flush still attempts the file removal
    db.del_personality("x");
    assert!(db.get_personality("x").is_none());
    assert!(db.get_personality("keep").is_some());
    assert_eq!(db.get_personalities().len(), 1);

    let plan = db.flush_plan();
    assert_eq!(plan.deletes.len(), 1);
    assert_eq!(plan.deletes[0], "x");
    assert_eq!(plan.personality_writes.len(), 0);

    // the removal fails with not-found, an unrecoverable outcome the
    // caller finalizes rather than retrying forever
    let removed = vec!["x".to_string()];
    db.flush_commit(&Vec::new(), &Vec::new(), &removed);
    assert_eq!(db.flush_plan().deletes.len(), 0);
}

#[test]
fn save_after_delete_cancels_the_pending_removal() {
    let mut db = Database::new();
    db.save_personality(Personality { id: "p".to_string(), txt: "a".to_string() });
    db.del_personality("p");
    db.save_personality(Personality { id: "p".to_string(), txt: "b".to_string() });

    let plan = db.flush_plan();
    assert_eq!(plan.deletes.len(), 0);
    assert_eq!(plan.personality_writes.len(), 1);
    assert_eq!(db.get_personality("p").unwrap().txt, "b");
}

#[test]
fn load_entity_is_last_write_wins() {
    let mut db = Database::new();
    db.load_entity(FileDocument {
        version: 1,
        content: FileContent::Chat(chat("c", Some("first"))),
    });
    db.load_entity(FileDocument {
        version: 1,
        content: FileContent::Chat(chat("c", Some("second"))),
    });
    db.load_entity(FileDocument {
        version: 1,
        content: FileContent::Personality(Personality {
            id: "p".to_string(),
            txt: "hi".to_string(),
        }),
    });

    assert_eq!(db.get_chat("c").unwrap().title.as_deref(), Some("second"));
    assert_eq!(db.get_personality("p").unwrap().txt, "hi");
    // loading marks nothing dirty: what was read matches its file
    let plan = db.flush_plan();
    assert_eq!(plan.chat_writes.len(), 0);
    assert_eq!(plan.personality_writes.len(), 0);
}
