use soul_agent_launcher::json::{JsonNumber, JsonValue};
use soul_agent_launcher::sessions::{
    append_message, clean_reply, counted_record, create_session, loaded_messages, renamed_record, reply_content,
    saved_messages, session_file_names,
    sort_sessions, ChatMessage, Session,
};

fn s(x: &str) -> JsonValue {
    JsonValue::Str(x.to_string())
}

fn obj(members: Vec<(&str, JsonValue)>) -> JsonValue {
    JsonValue::Object(members.into_iter().map(|(k, v)| (k.to_string(), v)).collect())
}

fn member_text(v: &JsonValue, key: &str) -> Option<String> {
    match v {
        JsonValue::Object(ms) => ms.iter().find(|(k, _)| k == key).and_then(|(_, v)| match v {
            JsonValue::Str(s) => Some(s.clone()),
            _ => None,
        }),
        _ => None,
    }
}

fn session(id: &str, updated: &str) -> Session {
    Session {
        id: id.to_string(),
        title: id.to_string(),
        created_at: "00:00:00".to_string(),
        updated_at: updated.to_string(),
        message_count: 0,
    }
}

#[test]
fn end_tokens_are_stripped_from_the_end_only() {
    assert_eq!(clean_reply("  Hello<|im_end|>  "), "Hello");
    assert_eq!(clean_reply("a</s> <eos>\n<|im_end|>"), "a");
    assert_eq!(clean_reply("<s>keep</s>middle"), "<s>keep</s>middle");
    assert_eq!(clean_reply("<|im_end|>"), "");
    assert_eq!(clean_reply(""), "");
}

#[test]
fn cleaning_twice_changes_nothing() {
    for x in ["x <|user|> <|assistant|>", " q </s>", "\t<bos><eos>", "plain"] {
        let once = clean_reply(x);
        assert_eq!(clean_reply(&once), once);
        assert!(x.trim().starts_with(&once));
    }
}

#[test]
fn sessions_are_listed_most_recent_first() {
    let v = vec![session("a", "10:00:00"), session("b", "12:00:00"), session("c", "10:00:00"), session("d", "11:00:00")];
    let ids: Vec<String> = sort_sessions(v).into_iter().map(|s| s.id).collect();
    assert_eq!(ids, vec!["b", "d", "a", "c"]);
}

#[test]
fn session_files_are_named_by_id() {
    let (a, b, c) = session_file_names("s1");
    assert_eq!((a.as_str(), b.as_str(), c.as_str()), ("s1.json", "s1.msgs.json", "s1.summary"));
}

#[test]
fn new_session_takes_the_default_title() {
    let s = create_session(None);
    assert_eq!(s.title, "新会话");
    assert_eq!(s.message_count, 0);
    assert!(s.id.starts_with('s') && s.id.len() >= 5);
    assert_eq!(s.created_at.len(), 8);
    let t = create_session(Some("My".to_string()));
    assert_eq!(t.title, "My");
}

#[test]
fn appending_counts_messages() {
    let mut v: Vec<ChatMessage> = Vec::new();
    assert_eq!(append_message(&mut v, "user".into(), "hi".into(), "01:02:03".into()), 1);
    assert_eq!(append_message(&mut v, "assistant".into(), "yo".into(), "01:02:04".into()), 2);
    assert_eq!(v[1].content, "yo");
}

#[test]
fn records_are_updated_in_place() {
    let meta = obj(vec![("id", s("s1")), ("title", s("old")), ("updated_at", s("1"))]);
    let r = renamed_record(meta, "new".into(), "2".into());
    assert_eq!(member_text(&r, "title"), Some("new".to_string()));
    assert_eq!(member_text(&r, "updated_at"), Some("2".to_string()));
    assert_eq!(member_text(&r, "id"), Some("s1".to_string()));
    let c = counted_record(JsonValue::Null, 3, "9".into());
    match &c {
        JsonValue::Object(ms) => {
            assert_eq!(ms.len(), 2);
            match &ms[0].1 {
                JsonValue::Number(JsonNumber { as_u64, float_text, .. }) => {
                    assert_eq!(*as_u64, Some(3));
                    assert_eq!(float_text, "3.0");
                }
                _ => panic!("expected a number"),
            }
        }
        _ => panic!("expected an object"),
    }
}

#[test]
fn reply_text_is_read_from_the_first_choice() {
    let v = obj(vec![(
        "choices",
        JsonValue::Array(vec![obj(vec![("message", obj(vec![("content", s("answer"))]))])]),
    )]);
    assert_eq!(reply_content(&v), "answer");
    assert_eq!(reply_content(&obj(vec![("choices", JsonValue::Array(vec![]))])), "");
    assert_eq!(reply_content(&JsonValue::Null), "");
}

fn message(role: &str, content: &str) -> ChatMessage {
    ChatMessage { role: role.to_string(), content: content.to_string(), timestamp: "00:00:01".to_string() }
}

#[test]
fn a_saved_message_is_read_back_after_the_earlier_ones() {
    let (written, count) = saved_messages(Some(Some(vec![message("user", "hi")])), "assistant".into(), "hello".into(), "00:00:02".into());
    assert_eq!(count, 2);
    assert_eq!(written[0].content, "hi");
    assert_eq!(written[1].role, "assistant");
    assert_eq!(written[1].timestamp, "00:00:02");
    let back = loaded_messages(Some(Some(written))).unwrap();
    assert_eq!(back.len(), 2);
    assert_eq!(back[1].content, "hello");
}

#[test]
fn unreadable_message_files_are_restarted_by_a_save_and_refused_by_a_load() {
    let (written, count) = saved_messages(Some(None), "user".into(), "x".into(), "t".into());
    assert_eq!((written.len(), count), (1, 1));
    assert!(loaded_messages(Some(None)).is_err());
    assert!(loaded_messages(None).unwrap().is_empty());
    let (fresh, _) = saved_messages(None, "user".into(), "y".into(), "t".into());
    assert_eq!(fresh[0].content, "y");
}
