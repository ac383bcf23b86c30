//! What the bot answers: plain texts and embed cards, built from plain
//! values that the caller fetched.

use vstd::prelude::*;
use crate::decimal::{decimal_int, decimal_nat, push_i64, push_u128};
use crate::rewards::DailyClaim;

verus! {

/// One named field of an embed card.
pub struct EmbedField {
    pub name: String,
    pub value: String,
    pub inline: bool,
}

/// An embed card: a title, optional description, thumbnail and footer,
/// fields in order, and a colour as `0xRRGGBB`.
pub struct EmbedCard {
    pub title: String,
    pub description: Option<String>,
    pub thumbnail: Option<String>,
    pub fields: Vec<EmbedField>,
    pub color: u32,
    pub footer: Option<String>,
}

/// A reply: a plain message or an embed card.
pub enum Reply {
    Text(String),
    Embed(EmbedCard),
}

/// The view of an optional string.
pub open spec fn opt_view(o: Option<String>) -> Option<Seq<char>> {
    match o {
        Some(s) => Some(s@),
        None => None,
    }
}

impl View for EmbedField {
    type V = (Seq<char>, Seq<char>, bool);

    open spec fn view(&self) -> (Seq<char>, Seq<char>, bool) {
        (self.name@, self.value@, self.inline)
    }
}

/// A card as plain values: title, description, thumbnail, fields, colour,
/// footer.
pub struct CardView {
    pub title: Seq<char>,
    pub description: Option<Seq<char>>,
    pub thumbnail: Option<Seq<char>>,
    pub fields: Seq<(Seq<char>, Seq<char>, bool)>,
    pub color: u32,
    pub footer: Option<Seq<char>>,
}

impl View for EmbedCard {
    type V = CardView;

    open spec fn view(&self) -> CardView {
        CardView {
            title: self.title@,
            description: opt_view(self.description),
            thumbnail: opt_view(self.thumbnail),
            fields: self.fields@.map_values(|f: EmbedField| f@),
            color: self.color,
            footer: opt_view(self.footer),
        }
    }
}

/// Green, the colour of the member and reward cards.
pub const GREEN: u32 = 0x00ff00;

/// Gold, the colour of the balance card.
pub const GOLD: u32 = 0xffd700;

fn field(name: &str, value: String, inline: bool) -> (f: EmbedField)
    ensures
        f@ == (name@, value@, inline),
{
    EmbedField { name: String::from_str(name), value, inline }
}

fn concat3(a: &str, b: &str, c: &str) -> (s: String)
    ensures
        s@ == a@ + b@ + c@,
{
    let mut s = String::from_str(a);
    s.append(b);
    s.append(c);
    s
}

// ---------------------------------------------------------------- member card

/// How `bool` displays.
pub open spec fn bool_text(b: bool) -> Seq<char> {
    if b {
        "true"@
    } else {
        "false"@
    }
}

/// The member card: `User Info - <name>`, the avatar as thumbnail, and the
/// fields `ID`, `Bot` (inline) and `Created At`.
pub open spec fn user_info_view(
    name: Seq<char>,
    avatar_url: Seq<char>,
    id: u64,
    is_bot: bool,
    created_at: Seq<char>,
) -> CardView {
    CardView {
        title: "User Info - "@ + name,
        description: None,
        thumbnail: Some(avatar_url),
        fields: seq![
            ("ID"@, decimal_nat(id as nat), true),
            ("Bot"@, bool_text(is_bot), true),
            ("Created At"@, created_at, false),
        ],
        color: GREEN,
        footer: None,
    }
}

/// The card describing a member.
pub fn user_info_card(name: &str, avatar_url: &str, id: u64, is_bot: bool, created_at: &str) -> (c:
    EmbedCard)
    ensures
        c@ == user_info_view(name@, avatar_url@, id, is_bot, created_at@),
{
    let mut title = String::from_str("User Info - ");
    title.append(name);
    let mut id_text = String::new();
    push_u128(&mut id_text, id as u128);
    let bot_text = if is_bot {
        String::from_str("true")
    } else {
        String::from_str("false")
    };
    let mut fields: Vec<EmbedField> = Vec::new();
    fields.push(field("ID", id_text, true));
    fields.push(field("Bot", bot_text, true));
    fields.push(field("Created At", String::from_str(created_at), false));
    let c = EmbedCard {
        title,
        description: None,
        thumbnail: Some(String::from_str(avatar_url)),
        fields,
        color: GREEN,
        footer: None,
    };
    assert(c@.fields =~= user_info_view(name@, avatar_url@, id, is_bot, created_at@).fields);
    c
}

// ---------------------------------------------------------------- balance card

/// The balance card: `<name>'s Balance` with the inline field
/// `💰 Balance` = `<points> coins`.
pub open spec fn balance_view(name: Seq<char>, points: i64) -> CardView {
    CardView {
        title: name + "'s Balance"@,
        description: None,
        thumbnail: None,
        fields: seq![("💰 Balance"@, decimal_int(points as int) + " coins"@, true)],
        color: GOLD,
        footer: None,
    }
}

/// The card showing a member's coins.
pub fn balance_card(name: &str, points: i64) -> (c: EmbedCard)
    ensures
        c@ == balance_view(name@, points),
{
    let mut title = String::from_str(name);
    title.append("'s Balance");
    let mut amount = String::new();
    push_i64(&mut amount, points);
    amount.append(" coins");
    let mut fields: Vec<EmbedField> = Vec::new();
    fields.push(field("💰 Balance", amount, true));
    let c = EmbedCard { title, description: None, thumbnail: None, fields, color: GOLD, footer: None };
    assert(c@.fields =~= balance_view(name@, points).fields);
    c
}

// ---------------------------------------------------------------- daily reward

/// The refusal text, with the wait in hours and minutes.
pub open spec fn too_soon_text(hours: int, minutes: int) -> Seq<char> {
    "❌ You've already collected your daily reward! Try again in "@ + decimal_int(hours) + "h "@
        + decimal_int(minutes) + "m."@
}

/// The reward card: `🎁 Daily Reward`, the coins paid, and the new balance
/// in the footer.
pub open spec fn granted_view(reward: i64, new_balance: i64) -> CardView {
    CardView {
        title: "🎁 Daily Reward"@,
        description: Some("You've collected **"@ + decimal_int(reward as int) + "** coins!"@),
        thumbnail: None,
        fields: seq![],
        color: GREEN,
        footer: Some("New balance: "@ + decimal_int(new_balance as int) + " coins"@),
    }
}

/// What the bot answers to a daily claim: the refusal text, or the reward
/// card.
pub fn daily_reply(claim: DailyClaim) -> (r: Reply)
    ensures
        claim matches DailyClaim::TooSoon { hours, minutes } ==> r matches Reply::Text(t) && t@
            == too_soon_text(hours as int, minutes as int),
        claim matches DailyClaim::Granted { reward, new_balance, .. } ==> r matches Reply::Embed(
            c,
        ) && c@ == granted_view(reward, new_balance),
{
    match claim {
        DailyClaim::TooSoon { hours, minutes } => {
            let mut t = String::from_str(
                "❌ You've already collected your daily reward! Try again in ",
            );
            push_i64(&mut t, hours);
            t.append("h ");
            push_i64(&mut t, minutes);
            t.append("m.");
            Reply::Text(t)
        },
        DailyClaim::Granted { reward, new_balance, .. } => {
            let mut description = String::from_str("You've collected **");
            push_i64(&mut description, reward);
            description.append("** coins!");
            let mut footer = String::from_str("New balance: ");
            push_i64(&mut footer, new_balance);
            footer.append(" coins");
            let c = EmbedCard {
                title: String::from_str("🎁 Daily Reward"),
                description: Some(description),
                thumbnail: None,
                fields: Vec::new(),
                color: GREEN,
                footer: Some(footer),
            };
            assert(c@.fields =~= granted_view(reward, new_balance).fields);
            Reply::Embed(c)
        },
    }
}

// ---------------------------------------------------------------- tracking

/// The confirmation that a member is now tracked.
pub fn tracking_started_text(name: &str) -> (t: String)
    ensures
        t@ == "✅ Now tracking **"@ + name@ + "**."@,
{
    concat3("✅ Now tracking **", name, "**.")
}

/// The confirmation that a member is no longer tracked.
pub fn tracking_stopped_text(name: &str) -> (t: String)
    ensures
        t@ == "❌ Stopped tracking **"@ + name@ + "**."@,
{
    concat3("❌ Stopped tracking **", name, "**.")
}

// ---------------------------------------------------------------- chat logs

/// One logged message: its text and when it was sent (seconds since the
/// epoch).
pub struct ChatLogEntry {
    pub content: String,
    pub timestamp: i64,
}

/// The line listing one logged message, with a relative Discord timestamp.
pub open spec fn log_line(content: Seq<char>, timestamp: int) -> Seq<char> {
    "- <t:"@ + decimal_int(timestamp) + ":R> "@ + content + "\n"@
}

/// The lines listing `entries`, in order.
pub open spec fn log_lines(entries: Seq<ChatLogEntry>) -> Seq<char>
    decreases entries.len(),
{
    if entries.len() == 0 {
        seq![]
    } else {
        log_lines(entries.drop_last()) + log_line(
            entries.last().content@,
            entries.last().timestamp as int,
        )
    }
}

/// The answer listing the logged messages of `name`, or saying there are
/// none.
pub open spec fn chat_log_text(name: Seq<char>, entries: Seq<ChatLogEntry>) -> Seq<char> {
    if entries.len() == 0 {
        "No logs found for **"@ + name + "**."@
    } else {
        "### Chat Logs for **"@ + name + "**:\n"@ + log_lines(entries)
    }
}

/// The answer listing `entries`, the logged messages of `name`.
pub fn chat_log_reply(name: &str, entries: &Vec<ChatLogEntry>) -> (t: String)
    ensures
        t@ == chat_log_text(name@, entries@),
{
    if entries.len() == 0 {
        return concat3("No logs found for **", name, "**.");
    }
    let mut t = concat3("### Chat Logs for **", name, "**:\n");
    let ghost head = t@;
    let n: usize = entries.len();
    for i in 0..n
        invariant
            n == entries@.len(),
            t@ == head + log_lines(entries@.take(i as int)),
    {
        let e = &entries[i];
        t.append("- <t:");
        push_i64(&mut t, e.timestamp);
        t.append(":R> ");
        t.append(e.content.as_str());
        t.append("\n");
        assert(entries@.take(i + 1).drop_last() =~= entries@.take(i as int));
    }
    assert(entries@.take(n as int) =~= entries@);
    t
}

} // verus!
