use yx_bot::json::Json;
use yx_bot::tracking::{
    plan_tracked_reply, roast_prompt, roast_request, roast_text, settle_profile, tracking_for,
    wants_tracking_lookup, AiSettings, ChatChoice, ChatCompletion, ChatMessage, ProfileStep,
    TrackedReply, UserProfile, UserTracking,
};

fn tracking(reply: Option<&str>, repeat: bool, roast: bool) -> UserTracking {
    UserTracking { user_id: 7, reply_text: reply.map(|s| s.to_string()), repeat_message: repeat, roast_mode: roast }
}

#[test]
fn new_members_start_with_nothing() {
    match settle_profile(None, 42) {
        ProfileStep::Insert(p) => {
            assert_eq!((p.user_id, p.points, p.last_daily), (42, 0, None));
        }
        ProfileStep::Existing(_) => panic!("expected an insert"),
    }
    let found = UserProfile { user_id: 42, points: 300, last_daily: Some(5) };
    match settle_profile(Some(found), 42) {
        ProfileStep::Existing(p) => assert_eq!((p.user_id, p.points, p.last_daily), (42, 300, Some(5))),
        ProfileStep::Insert(_) => panic!("expected the found row"),
    }
}

#[test]
fn track_defaults_to_quiet_modes() {
    let t = tracking_for(u64::MAX, Some("hi".to_string()), None, Some(true));
    assert_eq!(t.user_id, -1);
    assert_eq!(t.reply_text.as_deref(), Some("hi"));
    assert!(!t.repeat_message);
    assert!(t.roast_mode);
    let u = tracking_for(5, None, Some(true), None);
    assert!(u.repeat_message && !u.roast_mode && u.reply_text.is_none());
}

#[test]
fn bots_are_not_watched() {
    assert!(!wants_tracking_lookup(true));
    assert!(wants_tracking_lookup(false));
}

#[test]
fn roast_wins_only_with_a_key() {
    let t = tracking(Some("fixed"), true, true);
    match plan_tracked_reply(&t, "key", "bob", "hey") {
        TrackedReply::Roast(p) => assert_eq!(p, roast_prompt("bob", "hey")),
        other => panic!("expected a roast, got {:?}", other),
    }
    match plan_tracked_reply(&t, "", "bob", "  hey there \n") {
        TrackedReply::Repeat(s) => assert_eq!(s, "hey there"),
        other => panic!("expected a repeat, got {:?}", other),
    }
}

#[test]
fn fixed_text_then_silence() {
    match plan_tracked_reply(&tracking(Some("fixed"), false, true), "", "bob", "hey") {
        TrackedReply::Fixed(s) => assert_eq!(s, "fixed"),
        other => panic!("expected the stored text, got {:?}", other),
    }
    assert!(matches!(
        plan_tracked_reply(&tracking(None, false, false), "key", "bob", "hey"),
        TrackedReply::Silent
    ));
}

#[test]
fn roast_prompt_text() {
    assert_eq!(
        roast_prompt("bob", "I am great"),
        "You are a witty, sarcastic Filipino. You speak fluent English. Roast this message from bob: \"I am great\". Keep it short, savage, and brutal."
    );
}

#[test]
fn settings_defaults_and_parsing() {
    let s = AiSettings::from_config(None, None, None, None);
    assert_eq!(s.api_key, "");
    assert_eq!(s.base_url, "https://api.groq.com/openai/v1");
    assert_eq!(s.model, "llama-3.3-70b-versatile");
    assert_eq!(s.max_tokens, 100);
    let t = AiSettings::from_config(
        Some("k".to_string()),
        Some("http://local".to_string()),
        Some("m".to_string()),
        Some("256".to_string()),
    );
    assert_eq!((t.api_key.as_str(), t.base_url.as_str(), t.model.as_str(), t.max_tokens), ("k", "http://local", "m", 256));
    assert_eq!(AiSettings::from_config(None, None, None, Some("lots".to_string())).max_tokens, 100);
}

#[test]
fn request_matches_serde_json() {
    let s = AiSettings {
        api_key: "sk-1".to_string(),
        base_url: "https://api.example/v1".to_string(),
        model: "m\"x".to_string(),
        max_tokens: 64,
    };
    let prompt = "say \"hi\"\n\tand ünïcode \u{1}";
    let q = roast_request(&s, prompt);
    assert_eq!(q.url, "https://api.example/v1/chat/completions");
    assert_eq!(q.authorization, "Bearer sk-1");
    let mut message = serde_json::Map::new();
    message.insert("role".to_string(), serde_json::Value::String("user".to_string()));
    message.insert("content".to_string(), serde_json::Value::String(prompt.to_string()));
    let mut body = serde_json::Map::new();
    body.insert("model".to_string(), serde_json::Value::String(s.model.clone()));
    body.insert("messages".to_string(), serde_json::Value::Array(vec![serde_json::Value::Object(message)]));
    body.insert("max_tokens".to_string(), serde_json::Value::from(64u32));
    assert_eq!(q.body, serde_json::to_string(&serde_json::Value::Object(body)).unwrap());
}

#[test]
fn roast_read_from_the_first_choice() {
    let answer = ChatCompletion {
        choices: vec![
            ChatChoice { message: Some(ChatMessage { content: Some("burn".to_string()) }) },
            ChatChoice { message: Some(ChatMessage { content: Some("other".to_string()) }) },
        ],
    };
    assert_eq!(roast_text(&answer).as_deref(), Some("burn"));
    assert_eq!(roast_text(&ChatCompletion { choices: vec![] }), None);
    assert_eq!(roast_text(&ChatCompletion { choices: vec![ChatChoice { message: None }] }), None);
    assert_eq!(
        roast_text(&ChatCompletion { choices: vec![ChatChoice { message: Some(ChatMessage { content: None }) }] }),
        None
    );
}


#[test]
fn chat_document_holds_model_messages_and_length() {
    let s = AiSettings {
        api_key: String::new(),
        base_url: "u".to_string(),
        model: "llama".to_string(),
        max_tokens: 7,
    };
    let doc = yx_bot::tracking::chat_document(&s, "roast me");
    let fields = match doc {
        Json::Obj(f) => f,
        other => panic!("not an object: {:?}", other),
    };
    let keys: Vec<&str> = fields.iter().map(|(k, _)| k.as_str()).collect();
    assert_eq!(keys, vec!["model", "messages", "max_tokens"]);
    assert!(matches!(&fields[0].1, Json::Str(m) if m == "llama"));
    assert!(matches!(&fields[2].1, Json::Num(7)));
    match &fields[1].1 {
        Json::Arr(items) => {
            assert_eq!(items.len(), 1);
            match &items[0] {
                Json::Obj(m) => {
                    assert_eq!(m[0].0, "role");
                    assert!(matches!(&m[0].1, Json::Str(r) if r == "user"));
                    assert_eq!(m[1].0, "content");
                    assert!(matches!(&m[1].1, Json::Str(c) if c == "roast me"));
                }
                other => panic!("not a message: {:?}", other),
            }
        }
        other => panic!("not a list: {:?}", other),
    }
}

#[test]
fn request_body_is_compact_json_with_sorted_keys() {
    let s = AiSettings {
        api_key: "k".to_string(),
        base_url: "u".to_string(),
        model: "m".to_string(),
        max_tokens: 100,
    };
    let q = roast_request(&s, "a\"b");
    assert_eq!(
        q.body,
        "{\"max_tokens\":100,\"messages\":[{\"content\":\"a\\\"b\",\"role\":\"user\"}],\"model\":\"m\"}"
    );
}
