//! Members and tracked members as the database stores them, and what the
//! bot does with a message from a tracked member: repeat it, answer it with
//! a set text, or have a chat-completion service roast it.

use vstd::prelude::*;
use crate::json::{Json, JsonView, json_text, write_json};
use crate::numbers::{db_user_id, parse_u32, parsed_u32};
use crate::text::{trim, trimmed};

verus! {

/// A member's coins and last daily collection, as stored.
#[derive(Debug, Clone)]
pub struct UserProfile {
    pub user_id: i64,
    pub points: i64,
    pub last_daily: Option<i64>,
}

/// How the bot answers a tracked member, as stored.
#[derive(Debug, Clone)]
pub struct UserTracking {
    pub user_id: i64,
    pub reply_text: Option<String>,
    pub repeat_message: bool,
    pub roast_mode: bool,
}

/// What to do once the member row was looked up.
#[derive(Debug, Clone)]
pub enum ProfileStep {
    /// The member exists: use this row.
    Existing(UserProfile),
    /// The member is new: insert this row, then use it.
    Insert(UserProfile),
}

/// The row of a member seen for the first time: no coins, never collected.
pub open spec fn new_profile(user_id: i64) -> UserProfile {
    UserProfile { user_id, points: 0, last_daily: None }
}

/// Settles the lookup of member `user_id` (as stored): a found row is used
/// as it is; a missing member gets a new row with no coins.
pub fn settle_profile(found: Option<UserProfile>, user_id: i64) -> (r: ProfileStep)
    ensures
        found matches Some(p) ==> r matches ProfileStep::Existing(q) && q == p,
        found is None ==> (r matches ProfileStep::Insert(q) && q == new_profile(user_id)),
{
    match found {
        Some(p) => ProfileStep::Existing(p),
        None => ProfileStep::Insert(UserProfile { user_id, points: 0, last_daily: None }),
    }
}

/// The tracking row that the `track` command stores for `user_id`: the
/// optional reply text, and repeating and roasting off unless asked for.
pub fn tracking_for(
    user_id: u64,
    reply_text: Option<String>,
    repeat: Option<bool>,
    roast: Option<bool>,
) -> (t: UserTracking)
    ensures
        t.user_id == user_id as i64,
        t.reply_text == reply_text,
        t.repeat_message == (repeat == Some(true)),
        t.roast_mode == (roast == Some(true)),
{
    let repeat_message = match repeat {
        Some(b) => b,
        None => false,
    };
    let roast_mode = match roast {
        Some(b) => b,
        None => false,
    };
    UserTracking { user_id: db_user_id(user_id), reply_text, repeat_message, roast_mode }
}

// ---------------------------------------------------------------- messages

/// Messages of bots are never answered; those of others are checked
/// against the tracking table.
pub fn wants_tracking_lookup(author_is_bot: bool) -> (r: bool)
    ensures
        r == !author_is_bot,
{
    !author_is_bot
}

/// How the bot answers a tracked member's message.
#[derive(Debug, Clone)]
pub enum TrackedReply {
    /// Ask the chat-completion service with this prompt and answer with
    /// what it writes.
    Roast(String),
    /// Answer with the message itself, trimmed.
    Repeat(String),
    /// Answer with the stored text.
    Fixed(String),
    /// Do not answer.
    Silent,
}

/// The prompt asking for a roast of `content`, written by `author`.
pub open spec fn roast_prompt_text(author: Seq<char>, content: Seq<char>) -> Seq<char> {
    "You are a witty, sarcastic Filipino. You speak fluent English. Roast this message from "@
        + author + ": \""@ + content + "\". Keep it short, savage, and brutal."@
}

/// The prompt asking for a roast of `content`, written by `author`.
pub fn roast_prompt(author: &str, content: &str) -> (p: String)
    ensures
        p@ == roast_prompt_text(author@, content@),
{
    let mut p = String::from_str(
        "You are a witty, sarcastic Filipino. You speak fluent English. Roast this message from ",
    );
    p.append(author);
    p.append(": \"");
    p.append(content);
    p.append("\". Keep it short, savage, and brutal.");
    p
}

/// The answer to a tracked member's message, as plain values: `0` roast
/// with the given prompt, `1` repeat the given text, `2` the given stored
/// text, `3` nothing. Roasting wins when it is on and a service key is set;
/// then repeating; then the stored text.
pub open spec fn tracked_reply_spec(
    tracking: UserTracking,
    api_key: Seq<char>,
    author: Seq<char>,
    content: Seq<char>,
) -> (int, Seq<char>) {
    if tracking.roast_mode && api_key.len() > 0 {
        (0, roast_prompt_text(author, content))
    } else if tracking.repeat_message {
        (1, trim(content))
    } else if tracking.reply_text is Some {
        (2, tracking.reply_text->0@)
    } else {
        (3, seq![])
    }
}

/// A reply as plain values, as `tracked_reply_spec` writes it.
pub open spec fn reply_view(r: TrackedReply) -> (int, Seq<char>) {
    match r {
        TrackedReply::Roast(p) => (0, p@),
        TrackedReply::Repeat(t) => (1, t@),
        TrackedReply::Fixed(t) => (2, t@),
        TrackedReply::Silent => (3, seq![]),
    }
}

/// Decides how to answer `content`, sent by `author` whose tracking row is
/// `tracking`; `api_key` is the chat-completion service's key, empty when
/// none is set.
pub fn plan_tracked_reply(tracking: &UserTracking, api_key: &str, author: &str, content: &str) -> (r:
    TrackedReply)
    ensures
        reply_view(r) == tracked_reply_spec(*tracking, api_key@, author@, content@),
        r is Roast <==> tracking.roast_mode && api_key@.len() > 0,
        r matches TrackedReply::Roast(p) ==> p@ == roast_prompt_text(author@, content@),
        !tracking.roast_mode && tracking.repeat_message ==> (r matches TrackedReply::Repeat(t) && t@
            == trim(content@)),
{
    if tracking.roast_mode && !api_key.is_empty() {
        TrackedReply::Roast(roast_prompt(author, content))
    } else if tracking.repeat_message {
        TrackedReply::Repeat(trimmed(content))
    } else {
        match &tracking.reply_text {
            Some(t) => TrackedReply::Fixed(t.clone()),
            None => TrackedReply::Silent,
        }
    }
}

/// Only a member with roasting on is roasted, and only while a service key
/// is set; a member with roasting off and repeating on gets the message
/// back trimmed, whatever the key; a member with neither gets the stored
/// text if there is one, and nothing otherwise.
pub proof fn lemma_roast_only_when_asked(
    tracking: UserTracking,
    api_key: Seq<char>,
    author: Seq<char>,
    content: Seq<char>,
)
    ensures
        tracked_reply_spec(tracking, api_key, author, content).0 == 0 <==> tracking.roast_mode
            && api_key.len() > 0,
        tracked_reply_spec(tracking, api_key, author, content).0 == 0 ==> tracked_reply_spec(
            tracking,
            api_key,
            author,
            content,
        ).1 == roast_prompt_text(author, content),
        !tracking.roast_mode && tracking.repeat_message ==> tracked_reply_spec(
            tracking,
            api_key,
            author,
            content,
        ) == (1int, trim(content)),
        !tracking.roast_mode && !tracking.repeat_message ==> tracked_reply_spec(
            tracking,
            api_key,
            author,
            content,
        ) == (if tracking.reply_text is Some {
            (2int, tracking.reply_text->0@)
        } else {
            (3int, Seq::<char>::empty())
        }),
{
}

// ---------------------------------------------------------------- service

/// Where the chat-completion service is and how it is asked.
#[derive(Debug, Clone)]
pub struct AiSettings {
    pub api_key: String,
    pub base_url: String,
    pub model: String,
    pub max_tokens: u32,
}

/// The service address used when none is configured.
pub const DEFAULT_AI_BASE_URL: &'static str = "https://api.groq.com/openai/v1";

/// The model used when none is configured.
pub const DEFAULT_AI_MODEL: &'static str = "llama-3.3-70b-versatile";

/// The answer length used when none, or no number, is configured.
pub const DEFAULT_AI_MAX_TOKENS: u32 = 100;

/// The configured value, or `default` when there is none.
pub open spec fn or_default(v: Option<String>, default: Seq<char>) -> Seq<char> {
    match v {
        Some(s) => s@,
        None => default,
    }
}

fn string_or(v: Option<String>, default: &str) -> (s: String)
    ensures
        s@ == or_default(v, default@),
{
    match v {
        Some(s) => s,
        None => String::from_str(default),
    }
}

impl AiSettings {
    /// The settings from the configured values (`None` where a value is not
    /// set): no key by default, the default address and model, and the
    /// default answer length unless the configured one reads as a `u32`.
    pub fn from_config(
        api_key: Option<String>,
        base_url: Option<String>,
        model: Option<String>,
        max_tokens: Option<String>,
    ) -> (s: AiSettings)
        ensures
            s.api_key@ == or_default(api_key, seq![]),
            s.base_url@ == or_default(base_url, DEFAULT_AI_BASE_URL@),
            s.model@ == or_default(model, DEFAULT_AI_MODEL@),
            s.max_tokens == match parsed_u32(or_default(max_tokens, "100"@)) {
                Some(n) => n,
                None => DEFAULT_AI_MAX_TOKENS,
            },
    {
        let tokens_text = string_or(max_tokens, "100");
        let max_tokens = match parse_u32(tokens_text.as_str()) {
            Some(n) => n,
            None => DEFAULT_AI_MAX_TOKENS,
        };
        AiSettings {
            api_key: match api_key {
                Some(k) => k,
                None => String::new(),
            },
            base_url: string_or(base_url, DEFAULT_AI_BASE_URL),
            model: string_or(model, DEFAULT_AI_MODEL),
            max_tokens,
        }
    }
}

/// The request body as a document: the model, one user message holding
/// `prompt`, and the answer length.
pub open spec fn chat_tree(max_tokens: u32, prompt: Seq<char>, model: Seq<char>) -> JsonView {
    JsonView::Obj(
        seq![
            ("model"@, JsonView::Str(model)),
            (
                "messages"@,
                JsonView::Arr(
                    seq![
                        JsonView::Obj(
                            seq![("role"@, JsonView::Str("user"@)), ("content"@, JsonView::Str(prompt))],
                        ),
                    ],
                ),
            ),
            ("max_tokens"@, JsonView::Num(max_tokens)),
        ],
    )
}

/// The request body asking for a roast with `prompt`, as a document.
pub fn chat_document(settings: &AiSettings, prompt: &str) -> (doc: Json)
    ensures
        doc.tree() == chat_tree(settings.max_tokens, prompt@, settings.model@),
{
    proof {
        reveal_strlit("user");
        reveal_strlit("role");
        reveal_strlit("content");
        reveal_strlit("model");
        reveal_strlit("messages");
        reveal_strlit("max_tokens");
    }
    let role = String::from_str("role");
    let user = Json::Str(String::from_str("user"));
    let key = String::from_str("content");
    let content = Json::Str(String::from_str(prompt));
    let mut pairs: Vec<(String, Json)> = Vec::new();
    pairs.push((role, user));
    pairs.push((key, content));
    assert(pairs@[0].1.tree() == JsonView::Str("user"@));
    assert(pairs@[1].1.tree() == JsonView::Str(prompt@));
    let message = Json::Obj(pairs);
    let ghost message_tree = JsonView::Obj(
        seq![("role"@, JsonView::Str("user"@)), ("content"@, JsonView::Str(prompt@))],
    );
    assert(message.tree()->Obj_0 =~= message_tree->Obj_0);
    let mut items: Vec<Json> = Vec::new();
    items.push(message);
    let messages = Json::Arr(items);
    assert(messages.tree()->Arr_0 =~= seq![message_tree]);
    let mut fields: Vec<(String, Json)> = Vec::new();
    fields.push((String::from_str("model"), Json::Str(settings.model.clone())));
    fields.push((String::from_str("messages"), messages));
    fields.push((String::from_str("max_tokens"), Json::Num(settings.max_tokens)));
    assert(fields@[0].1.tree() == JsonView::Str(settings.model@));
    assert(fields@[1].1.tree() == JsonView::Arr(seq![message_tree]));
    assert(fields@[2].1.tree() == JsonView::Num(settings.max_tokens));
    let doc = Json::Obj(fields);
    assert(doc.tree()->Obj_0 =~= chat_tree(settings.max_tokens, prompt@, settings.model@)->Obj_0);
    doc
}

/// A request to the chat-completion service: where it goes, its
/// `Authorization` header, and its JSON body.
#[derive(Debug, Clone)]
pub struct ChatRequest {
    pub url: String,
    pub authorization: String,
    pub body: String,
}

/// The request asking the service for a roast with `prompt`; its body is
/// the `chat_tree` document as `serde_json` writes it.
pub fn roast_request(settings: &AiSettings, prompt: &str) -> (q: ChatRequest)
    ensures
        q.url@ == settings.base_url@ + "/chat/completions"@,
        q.authorization@ == "Bearer "@ + settings.api_key@,
        q.body@ == json_text(chat_tree(settings.max_tokens, prompt@, settings.model@)),
{
    let mut url = settings.base_url.clone();
    url.append("/chat/completions");
    let mut authorization = String::from_str("Bearer ");
    authorization.append(settings.api_key.as_str());
    let doc = chat_document(settings, prompt);
    let body = write_json(&doc);
    ChatRequest { url, authorization, body }
}

/// The service's answer, as far as the bot reads it.
#[derive(Debug, Clone)]
pub struct ChatCompletion {
    pub choices: Vec<ChatChoice>,
}

/// One answer choice.
#[derive(Debug, Clone)]
pub struct ChatChoice {
    pub message: Option<ChatMessage>,
}

/// The message of a choice.
#[derive(Debug, Clone)]
pub struct ChatMessage {
    pub content: Option<String>,
}

/// The roast in an answer: the text of the first choice's message, if
/// there is one.
pub open spec fn roast_in(answer: ChatCompletion) -> Option<Seq<char>> {
    if answer.choices@.len() > 0 && answer.choices@[0].message is Some
        && answer.choices@[0].message->0.content is Some {
        Some(answer.choices@[0].message->0.content->0@)
    } else {
        None
    }
}

/// The roast that the service wrote, if its answer holds one.
pub fn roast_text(answer: &ChatCompletion) -> (r: Option<String>)
    ensures
        match r {
            Some(t) => roast_in(*answer) == Some(t@),
            None => roast_in(*answer) is None,
        },
{
    if answer.choices.len() == 0 {
        return None;
    }
    match &answer.choices[0].message {
        Some(m) => match &m.content {
            Some(t) => Some(t.clone()),
            None => None,
        },
        None => None,
    }
}

} // verus!
