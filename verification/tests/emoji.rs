use yx_bot::emoji::{emoji_url, line_pieces, Piece};

fn text(t: &str) -> Piece {
    Piece::Text(t.to_string())
}

fn uni(t: &str) -> Piece {
    Piece::Unicode(t.to_string())
}

#[test]
fn custom_emoji_between_text() {
    assert_eq!(
        line_pieces("hi <:pepe:123456789012345678> there"),
        vec![text("hi "), Piece::Custom { id: 123456789012345678, animated: false }, text(" there")]
    );
    assert_eq!(line_pieces("<a:dance:42>"), vec![Piece::Custom { id: 42, animated: true }]);
    assert_eq!(
        line_pieces("<:a:1><:b:2>"),
        vec![Piece::Custom { id: 1, animated: false }, Piece::Custom { id: 2, animated: false }]
    );
}

#[test]
fn malformed_custom_emoji_stay_text() {
    for s in ["<:x:>", "<::1>", "<:x:1", "<x:1>", "<:x y:1>", "<:x:1a>", "<b:x:1>"] {
        assert_eq!(line_pieces(s), vec![text(s)], "input {:?}", s);
    }
    assert_eq!(line_pieces("<:x:99999999999999999999>"), vec![text("<:x:99999999999999999999>")]);
    assert_eq!(
        line_pieces("<:x:18446744073709551615>"),
        vec![Piece::Custom { id: u64::MAX, animated: false }]
    );
}

#[test]
fn unicode_emoji_with_modifiers_flags_and_joiners() {
    assert_eq!(line_pieces("ok 👍🏽!"), vec![text("ok "), uni("👍🏽"), text("!")]);
    assert_eq!(line_pieces("🇵🇭🇯🇵"), vec![uni("🇵🇭"), uni("🇯🇵")]);
    assert_eq!(line_pieces("👨\u{200D}👩\u{200D}👧"), vec![uni("👨\u{200D}👩\u{200D}👧")]);
    assert_eq!(line_pieces("❤\u{FE0F}❤"), vec![uni("❤\u{FE0F}"), uni("❤")]);
    assert_eq!(line_pieces(""), vec![]);
    assert_eq!(line_pieces("plain words"), vec![text("plain words")]);
}

#[test]
fn emoji_picture_addresses() {
    assert_eq!(
        emoji_url(&Piece::Custom { id: 42, animated: true }).as_deref(),
        Some("https://cdn.discordapp.com/emojis/42.png")
    );
    assert_eq!(
        emoji_url(&uni("❤\u{FE0F}")).as_deref(),
        Some("https://cdn.jsdelivr.net/gh/twitter/twemoji@14.0.2/assets/72x72/2764.png")
    );
    assert_eq!(
        emoji_url(&uni("🏳\u{FE0F}\u{200D}🌈")).as_deref(),
        Some("https://cdn.jsdelivr.net/gh/twitter/twemoji@14.0.2/assets/72x72/1f3f3-fe0f-200d-1f308.png")
    );
    assert_eq!(
        emoji_url(&uni("👍🏽")).as_deref(),
        Some("https://cdn.jsdelivr.net/gh/twitter/twemoji@14.0.2/assets/72x72/1f44d-1f3fd.png")
    );
    assert_eq!(emoji_url(&text("hello")), None);
}

#[test]
fn pieces_give_back_the_line_and_gather_text() {
    let line = "so 🔥🔥 much\u{FE0F} 🇵🇭 fun ❤\u{FE0F}👨\u{200D}👩 end";
    let ps = line_pieces(line);
    let shown: String = ps
        .iter()
        .map(|p| match p {
            Piece::Text(t) | Piece::Unicode(t) => t.clone(),
            Piece::Custom { .. } => String::new(),
        })
        .collect();
    assert_eq!(shown, line);
    for w in ps.windows(2) {
        assert!(!(matches!(w[0], Piece::Text(_)) && matches!(w[1], Piece::Text(_))));
    }
    assert!(ps.iter().all(|p| !matches!(p, Piece::Text(t) if t.is_empty())));
}
