use yx_bot::replies::{
    balance_card, chat_log_reply, daily_reply, tracking_started_text, tracking_stopped_text,
    user_info_card, ChatLogEntry, Reply, GOLD, GREEN,
};
use yx_bot::rewards::{daily_claim, DailyClaim, DAILY_COOLDOWN_SECS, DAILY_REWARD};

#[test]
fn first_claim_is_paid() {
    assert_eq!(
        daily_claim(1_700_000_000, None, 250),
        DailyClaim::Granted { reward: 100, new_balance: 350, claimed_at: 1_700_000_000 }
    );
}

#[test]
fn claim_within_a_day_is_refused_with_the_wait() {
    let last = 1_700_000_000;
    // 3661 seconds later: 86400 - 3661 = 82739 s left = 22 h 58 m 59 s
    assert_eq!(
        daily_claim(last + 3661, Some(last), 0),
        DailyClaim::TooSoon { hours: 22, minutes: 58 }
    );
    assert_eq!(daily_claim(last, Some(last), 0), DailyClaim::TooSoon { hours: 24, minutes: 0 });
    assert_eq!(
        daily_claim(last + DAILY_COOLDOWN_SECS - 1, Some(last), 0),
        DailyClaim::TooSoon { hours: 0, minutes: 0 }
    );
}

#[test]
fn claim_after_a_day_is_paid() {
    let last = 1_700_000_000;
    assert_eq!(
        daily_claim(last + DAILY_COOLDOWN_SECS, Some(last), 5),
        DailyClaim::Granted { reward: DAILY_REWARD, new_balance: 105, claimed_at: last + 86400 }
    );
}

#[test]
fn claim_after_the_clock_went_back_shows_a_longer_wait() {
    let last = 1_700_000_000;
    assert_eq!(
        daily_claim(last - 7200, Some(last), 0),
        DailyClaim::TooSoon { hours: 26, minutes: 0 }
    );
}

#[test]
fn one_claim_per_day_across_calls() {
    let t = 1_000_000;
    let (points, last) = match daily_claim(t, None, 0) {
        DailyClaim::Granted { new_balance, claimed_at, .. } => (new_balance, claimed_at),
        other => panic!("expected a payment, got {:?}", other),
    };
    assert!(matches!(daily_claim(t + 1, Some(last), points), DailyClaim::TooSoon { .. }));
    assert!(matches!(daily_claim(t + 86399, Some(last), points), DailyClaim::TooSoon { .. }));
    assert_eq!(
        daily_claim(t + 86400, Some(last), points),
        DailyClaim::Granted { reward: 100, new_balance: 200, claimed_at: t + 86400 }
    );
}

#[test]
fn refusal_text() {
    match daily_reply(DailyClaim::TooSoon { hours: 3, minutes: 7 }) {
        Reply::Text(t) => assert_eq!(
            t,
            "❌ You've already collected your daily reward! Try again in 3h 7m."
        ),
        Reply::Embed(_) => panic!("expected text"),
    }
}

#[test]
fn reward_card() {
    match daily_reply(DailyClaim::Granted { reward: 100, new_balance: 1100, claimed_at: 5 }) {
        Reply::Embed(c) => {
            assert_eq!(c.title, "🎁 Daily Reward");
            assert_eq!(c.description.as_deref(), Some("You've collected **100** coins!"));
            assert_eq!(c.footer.as_deref(), Some("New balance: 1100 coins"));
            assert_eq!(c.color, 0x00ff00);
            assert!(c.fields.is_empty());
            assert!(c.thumbnail.is_none());
        }
        Reply::Text(_) => panic!("expected a card"),
    }
}

#[test]
fn member_card() {
    let c = user_info_card("yexiuph", "https://cdn/a.png", 1234567890123, false, "2020-01-01T00:00:00Z");
    assert_eq!(c.title, "User Info - yexiuph");
    assert_eq!(c.thumbnail.as_deref(), Some("https://cdn/a.png"));
    assert_eq!(c.color, GREEN);
    let fields: Vec<(&str, &str, bool)> =
        c.fields.iter().map(|f| (f.name.as_str(), f.value.as_str(), f.inline)).collect();
    assert_eq!(
        fields,
        vec![
            ("ID", "1234567890123", true),
            ("Bot", "false", true),
            ("Created At", "2020-01-01T00:00:00Z", false)
        ]
    );
    let b = user_info_card("bot", "u", 1, true, "c");
    assert_eq!(b.fields[1].value, "true");
}

#[test]
fn balance_card_shows_coins() {
    let c = balance_card("Ainsworth", -5);
    assert_eq!(c.title, "Ainsworth's Balance");
    assert_eq!(c.color, GOLD);
    assert_eq!(c.fields.len(), 1);
    assert_eq!(c.fields[0].name, "💰 Balance");
    assert_eq!(c.fields[0].value, "-5 coins");
    assert!(c.fields[0].inline);
}

#[test]
fn tracking_texts() {
    assert_eq!(tracking_started_text("bob"), "✅ Now tracking **bob**.");
    assert_eq!(tracking_stopped_text("bob"), "❌ Stopped tracking **bob**.");
}

#[test]
fn chat_logs_listing() {
    assert_eq!(chat_log_reply("bob", &vec![]), "No logs found for **bob**.");
    let rows = vec![
        ChatLogEntry { content: "hello".to_string(), timestamp: 1700000000 },
        ChatLogEntry { content: "bye".to_string(), timestamp: 1600000000 },
    ];
    assert_eq!(
        chat_log_reply("bob", &rows),
        "### Chat Logs for **bob**:\n- <t:1700000000:R> hello\n- <t:1600000000:R> bye\n"
    );
}

#[test]
fn cutoff_guards_the_payment() {
    let now = 1_700_000_000;
    let cut = yx_bot::rewards::claim_cutoff(now);
    assert_eq!(cut, now - 86400);
    assert!(matches!(daily_claim(now, Some(cut), 0), DailyClaim::Granted { .. }));
    assert!(matches!(daily_claim(now, Some(cut + 1), 0), DailyClaim::TooSoon { .. }));
}

#[test]
fn lost_race_decides_again() {
    let granted = daily_claim(1_700_000_000, None, 5);
    assert_eq!(yx_bot::rewards::settle_payment(granted, 0), None);
    assert_eq!(yx_bot::rewards::settle_payment(granted, 1), Some(granted));
    let refused = daily_claim(1_700_000_000, Some(1_700_000_000 - 10), 5);
    assert_eq!(yx_bot::rewards::settle_payment(refused, 0), Some(refused));
}

#[test]
fn claims_taken_in_turn_are_paid_a_day_apart() {
    // The store's guard, replayed on claims arriving in this order.
    let nows = [1_000_000i64, 1_050_000, 1_000_100, 1_086_400, 1_100_000, 1_172_800];
    let mut stored: Option<i64> = None;
    let mut paid: Vec<i64> = Vec::new();
    for now in nows {
        let cut = yx_bot::rewards::claim_cutoff(now);
        if stored.map_or(true, |l| l <= cut) {
            assert!(matches!(daily_claim(now, stored, 0), DailyClaim::Granted { .. }));
            stored = Some(now);
            paid.push(now);
        } else {
            assert!(matches!(daily_claim(now, stored, 0), DailyClaim::TooSoon { .. }));
        }
    }
    assert_eq!(paid, vec![1_000_000, 1_086_400, 1_172_800]);
    for w in paid.windows(2) {
        assert!(w[1] - w[0] >= DAILY_COOLDOWN_SECS);
    }
}
