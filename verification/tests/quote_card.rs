use yx_bot::canvas::{
    avatar_from_bytes, card_png, faded_alpha, watermark_and_icon, CardError, LogoPictures,
    PixelCanvas, AVATAR_SIDE,
};
use yx_bot::quote::{
    card_base, card_layout, choose_font_size, content_font_sizes, footer_text, handle_text,
    large_avatar_url, next_name_step, quote_file_name, resource_dir, text_block_fits, AuthorNames,
    NameLookupAction, NameLookupEvent, NameLookupStage, CARD_FOOTER, CARD_HEIGHT, CARD_WIDTH,
    MAX_TEXT_WIDTH, TEXT_X,
};

fn author(global: Option<&str>, user: &str) -> AuthorNames {
    AuthorNames { global_name: global.map(|g| g.to_string()), username: user.to_string() }
}

fn shown(action: NameLookupAction) -> String {
    match action {
        NameLookupAction::Show(n) => n,
        NameLookupAction::AskCache => panic!("asked the cache"),
        NameLookupAction::AskHttp => panic!("asked over http"),
    }
}

#[test]
fn name_outside_a_guild_is_the_global_name_or_user_name() {
    let a = author(Some("Ainsworth"), "yexiuph");
    let (stage, action) = next_name_step(NameLookupStage::Start, NameLookupEvent::Begin { in_guild: false }, &a);
    assert_eq!(stage, NameLookupStage::Done);
    assert_eq!(shown(action), "Ainsworth");
    let b = author(None, "yexiuph");
    let (_, action) = next_name_step(NameLookupStage::Start, NameLookupEvent::Begin { in_guild: false }, &b);
    assert_eq!(shown(action), "yexiuph");
}

#[test]
fn name_in_a_guild_prefers_the_member_name() {
    let a = author(Some("Ainsworth"), "yexiuph");
    let (stage, action) = next_name_step(NameLookupStage::Start, NameLookupEvent::Begin { in_guild: true }, &a);
    assert_eq!(stage, NameLookupStage::AskedCache);
    assert!(matches!(action, NameLookupAction::AskCache));
    let (stage, action) =
        next_name_step(stage, NameLookupEvent::CacheAnswer(Some("Nick".to_string())), &a);
    assert_eq!(stage, NameLookupStage::Done);
    assert_eq!(shown(action), "Nick");
}

#[test]
fn name_in_a_guild_falls_back_through_http() {
    let a = author(None, "yexiuph");
    let (stage, _) = next_name_step(NameLookupStage::Start, NameLookupEvent::Begin { in_guild: true }, &a);
    let (stage, action) = next_name_step(stage, NameLookupEvent::CacheAnswer(None), &a);
    assert_eq!(stage, NameLookupStage::AskedHttp);
    assert!(matches!(action, NameLookupAction::AskHttp));
    let (stage2, action2) =
        next_name_step(stage, NameLookupEvent::HttpAnswer(Some("Remote".to_string())), &a);
    assert_eq!(stage2, NameLookupStage::Done);
    assert_eq!(shown(action2), "Remote");
    let (_, action3) = next_name_step(stage, NameLookupEvent::HttpAnswer(None), &a);
    assert_eq!(shown(action3), "yexiuph");
}

#[test]
fn avatar_asked_at_full_size() {
    assert_eq!(
        large_avatar_url("https://cdn.discordapp.com/embed/avatars/0.png"),
        "https://cdn.discordapp.com/embed/avatars/0.png?size=4096"
    );
    assert_eq!(
        large_avatar_url("https://cdn.discordapp.com/avatars/1/a.webp?size=1024"),
        "https://cdn.discordapp.com/avatars/1/a.webp?size=1024&size=4096"
    );
}

#[test]
fn file_name_and_texts() {
    assert_eq!(quote_file_name(1700000000123456789, 1700000000123), "quote_17000000001234567891700000000123.png");
    assert_eq!(quote_file_name(0, 0), "quote_00.png");
    assert_eq!(handle_text("yexiuph"), "@yexiuph");
    assert_eq!(footer_text(None), CARD_FOOTER);
    assert_eq!(footer_text(Some("discord.gg/x | (c) Us".to_string())), "discord.gg/x | (c) Us");
    assert_eq!(MAX_TEXT_WIDTH, 490);
    assert_eq!(TEXT_X, 670);
}

#[test]
fn font_sizes_and_fitting() {
    assert_eq!(content_font_sizes(), vec![40, 36, 32, 28, 24, 20, 16]);
    // 40 px lines are 51 px high; 7 lines + 78 px of names = 435 <= 460
    assert!(text_block_fits(40, 7));
    assert!(!text_block_fits(40, 8));
    let narrow = vec![false; 7];
    assert_eq!(choose_font_size(&vec![3, 3, 2, 2, 2, 1, 1], &narrow), 0);
    assert_eq!(choose_font_size(&vec![12, 11, 9, 9, 8, 7, 6], &narrow), 2);
    assert_eq!(choose_font_size(&vec![99, 99, 99, 99, 99, 99, 99], &narrow), 6);
}

#[test]
fn a_word_too_wide_forces_a_smaller_size() {
    // one long word: a single line at every size, too wide at the two largest
    let counts = vec![1; 7];
    let wide = vec![true, true, false, false, false, false, false];
    assert_eq!(choose_font_size(&counts, &wide), 2);
    assert_eq!(choose_font_size(&counts, &vec![true; 7]), 6);
}

#[test]
fn layout_centres_a_short_quote() {
    let l = card_layout(0, 2);
    assert_eq!((l.font_size, l.line_height, l.line_count), (40, 51, 2));
    // block = 102 + 78 = 180; top = 100 + (460 - 180) / 2 = 240
    assert_eq!(l.text_top, 240);
    assert_eq!(l.nickname_y, 366);
    assert_eq!(l.handle_y, 396);
    assert_eq!(l.line_tops(), vec![240, 291]);
}

#[test]
fn layout_starts_an_overlong_quote_at_the_top() {
    let l = card_layout(6, 40);
    assert_eq!(l.line_height, 20);
    assert_eq!(l.text_top, 100);
    assert_eq!(l.line_tops().len(), 40);
    assert_eq!(l.nickname_y, 100 + 800 + 24);
}

#[test]
fn card_is_open_graph_sized() {
    assert_eq!((CARD_WIDTH, CARD_HEIGHT), (1200, 630));
    let avatar = PixelCanvas::from_raw(2, 2, vec![255; 16]).unwrap();
    let watermark = PixelCanvas::from_raw(2, 2, vec![9, 9, 9, 255, 9, 9, 9, 255, 9, 9, 9, 255, 9, 9, 9, 255]).unwrap();
    let icon = PixelCanvas::from_raw(1, 1, vec![7, 7, 7, 255]).unwrap();
    let base = card_base(&avatar, &LogoPictures { watermark, icon });
    assert_eq!((base.width(), base.height()), (1200, 630));
    let raw = base.into_raw();
    let at = |x: usize, y: usize| -> Vec<u8> { raw[(y * 1200 + x) * 4..(y * 1200 + x) * 4 + 4].to_vec() };
    assert_eq!(at(0, 0), vec![255, 255, 255, 255]);
    assert_eq!(at(1199, 629), vec![15, 15, 15, 255]);
    // watermark centred in the right section: x = 630 + (570 - 2) / 2 = 914, y = (630 - 2) / 2 = 314
    assert_eq!(at(914, 314), vec![9, 9, 9, 255]);
    assert_eq!(at(913, 314), vec![15, 15, 15, 255]);
    // icon against the right margin at the top: x = 1200 - 40 - 1 = 1159, y = 40
    assert_eq!(at(1159, 40), vec![7, 7, 7, 255]);
}

fn png_of(w: u32, h: u32, raw: Vec<u8>) -> Vec<u8> {
    let img = image::RgbaImage::from_raw(w, h, raw).unwrap();
    let mut out = std::io::Cursor::new(Vec::new());
    img.write_to(&mut out, image::ImageFormat::Png).unwrap();
    out.into_inner()
}

#[test]
fn avatar_is_grey_and_fades_right() {
    let red: Vec<u8> = (0..(4 * 4)).flat_map(|_| vec![255u8, 0, 0, 255]).collect();
    let a = avatar_from_bytes(&png_of(4, 4, red)).expect("decodes");
    assert_eq!((a.width(), a.height()), (AVATAR_SIDE, AVATAR_SIDE));
    let raw = a.into_raw();
    let w = AVATAR_SIDE as usize;
    for p in (0..w * w).step_by(997) {
        let px = &raw[4 * p..4 * p + 4];
        assert_eq!(px[0], px[1]);
        assert_eq!(px[1], px[2]);
        assert_eq!(px[0], 54); // (2126 * 255) / 10000
    }
    // left two fifths opaque, right edge nearly transparent
    assert_eq!(raw[3], 255);
    assert_eq!(raw[4 * (w - 1) + 3], 0);
    assert!(raw[4 * (w / 2) + 3] < 255);
}

fn other_format(w: u32, h: u32, raw: Vec<u8>, format: image::ImageFormat) -> Vec<u8> {
    let img = image::DynamicImage::ImageRgba8(image::RgbaImage::from_raw(w, h, raw).unwrap());
    let img = if format == image::ImageFormat::Jpeg { image::DynamicImage::ImageRgb8(img.to_rgb8()) } else { img };
    let mut out = std::io::Cursor::new(Vec::new());
    img.write_to(&mut out, format).unwrap();
    out.into_inner()
}

#[test]
fn avatars_in_web_formats_decode() {
    let raw: Vec<u8> = (0..16).flat_map(|_| vec![200u8, 100, 50, 255]).collect();
    for format in [image::ImageFormat::WebP, image::ImageFormat::Gif, image::ImageFormat::Jpeg] {
        let a = avatar_from_bytes(&other_format(4, 4, raw.clone(), format)).expect("decodes");
        assert_eq!((a.width(), a.height()), (AVATAR_SIDE, AVATAR_SIDE));
    }
}

#[test]
fn undecodable_avatar_is_refused() {
    assert!(matches!(avatar_from_bytes(b"not a picture"), Err(CardError::Decode(_))));
    assert!(matches!(watermark_and_icon(b"nope"), Err(CardError::Decode(_))));
}

#[test]
fn watermark_is_fitted_and_faded() {
    let logo: Vec<u8> = (0..(600 * 300)).flat_map(|_| vec![10u8, 20, 30, 200]).collect();
    let l = watermark_and_icon(&png_of(600, 300, logo)).expect("decodes");
    assert_eq!((l.icon.width(), l.icon.height()), (48, 24));
    let m = l.watermark;
    assert_eq!((m.width(), m.height()), (300, 150));
    let raw = m.into_raw();
    assert_eq!(raw[3], 30); // 200 * 15%
    assert_eq!(&raw[0..3], &[10, 20, 30]);
}

#[test]
fn logo_pictures_touch_their_boxes() {
    let tall: Vec<u8> = (0..(100 * 400)).flat_map(|_| vec![1u8, 2, 3, 255]).collect();
    let l = watermark_and_icon(&png_of(100, 400, tall)).expect("decodes");
    assert_eq!((l.watermark.width(), l.watermark.height()), (75, 300));
    assert_eq!((l.icon.width(), l.icon.height()), (12, 48));
    let tiny: Vec<u8> = (0..4).flat_map(|_| vec![9u8, 9, 9, 100]).collect();
    let l = watermark_and_icon(&png_of(2, 2, tiny)).expect("decodes");
    assert_eq!((l.watermark.width(), l.watermark.height()), (300, 300));
    assert_eq!((l.icon.width(), l.icon.height()), (48, 48));
    let m = l.watermark.into_raw();
    assert_eq!(m.len(), 300 * 300 * 4);
    assert!(m.chunks(4).all(|px| px[3] <= 15));
}

#[test]
fn emoji_pictures_are_scaled_to_the_text() {
    let raw: Vec<u8> = (0..(72 * 72)).flat_map(|_| vec![250u8, 200, 0, 255]).collect();
    let pic = yx_bot::canvas::emoji_picture(&png_of(72, 72, raw), 48).expect("decodes");
    assert_eq!((pic.width(), pic.height()), (48, 48));
    let px = pic.into_raw();
    assert_eq!(px.len(), 48 * 48 * 4);
    assert_eq!(&px[0..4], &[250, 200, 0, 255]);
    assert!(matches!(yx_bot::canvas::emoji_picture(b"<html>", 48), Err(CardError::Decode(_))));
}

#[test]
fn resized_canvas_takes_the_new_size() {
    let c = PixelCanvas::filled(4, 2, (10, 20, 30, 255)).resized(8, 4);
    assert_eq!((c.width(), c.height()), (8, 4));
    let px = c.into_raw();
    assert_eq!(px.len(), 8 * 4 * 4);
    assert_eq!(&px[0..4], &[10, 20, 30, 255]);
}

#[test]
fn unreadable_font_is_refused() {
    assert!(matches!(yx_bot::quote::card_font(b"not a font".to_vec()), Err(CardError::Font(_))));
    assert!(matches!(yx_bot::quote::card_font(Vec::new()), Err(CardError::Font(_))));
}

#[test]
fn truncated_png_is_refused() {
    let raw: Vec<u8> = (0..16).flat_map(|_| vec![1u8, 2, 3, 4]).collect();
    let png = png_of(4, 4, raw);
    assert!(avatar_from_bytes(&png).is_ok());
    assert!(matches!(avatar_from_bytes(&png[..png.len() / 2]), Err(CardError::Decode(_))));
    assert!(matches!(watermark_and_icon(&png[..20]), Err(CardError::Decode(_))));
}

#[test]
fn card_png_encodes() {
    let c = PixelCanvas::filled(3, 2, (1, 2, 3, 4));
    let png = card_png(&c);
    let back = image::load_from_memory(&png).unwrap().to_rgba8();
    assert_eq!(back.into_raw(), vec![1, 2, 3, 4, 1, 2, 3, 4, 1, 2, 3, 4, 1, 2, 3, 4, 1, 2, 3, 4, 1, 2, 3, 4]);
}

#[test]
fn canvas_needs_four_bytes_per_pixel() {
    assert!(PixelCanvas::from_raw(2, 2, vec![0; 15]).is_none());
    assert!(PixelCanvas::from_raw(2, 2, vec![0; 16]).is_some());
    assert!(PixelCanvas::from_raw(0, 5, vec![]).is_some());
}

#[test]
fn watermark_alpha_is_fifteen_percent() {
    for a in 0..=255u8 {
        assert_eq!(faded_alpha(a), (a as f32 * 0.15) as u8, "alpha {}", a);
    }
    let c = PixelCanvas::from_raw(1, 2, vec![10, 20, 30, 255, 1, 2, 3, 100]).unwrap();
    assert_eq!(c.faded().into_raw(), vec![10, 20, 30, 38, 1, 2, 3, 15]);
}

#[test]
fn png_encoding_round_trips() {
    let raw: Vec<u8> = vec![255, 0, 0, 255, 0, 255, 0, 128, 0, 0, 255, 0, 9, 9, 9, 9, 1, 2, 3, 4, 5, 6, 7, 8];
    let c = PixelCanvas::from_raw(3, 2, raw.clone()).unwrap();
    let png = c.encode_png().expect("encodes");
    assert_eq!(&png[..8], &[137, 80, 78, 71, 13, 10, 26, 10]);
    let back = image::load_from_memory(&png).expect("decodes").to_rgba8();
    assert_eq!(back.dimensions(), (3, 2));
    assert_eq!(back.into_raw(), raw);
}

#[test]
fn png_encoding_refuses_an_empty_picture() {
    let c = PixelCanvas::from_raw(0, 0, vec![]).unwrap();
    assert!(c.encode_png().is_err());
}

#[test]
fn resources_directory() {
    assert_eq!(resource_dir(Some("assets".to_string()), true), "assets");
    assert_eq!(resource_dir(None, true), "crates/yx-bot/resources");
    assert_eq!(resource_dir(None, false), "resources");
}

#[test]
fn only_text_messages_are_quoted() {
    assert!(yx_bot::quote::quotable(0, 0, 0));
    assert!(!yx_bot::quote::quotable(1, 0, 0));
    assert!(!yx_bot::quote::quotable(0, 2, 0));
    assert!(!yx_bot::quote::quotable(0, 0, 1));
}

#[test]
fn nickname_takes_the_role_colour() {
    assert_eq!(yx_bot::quote::nickname_colour(Some(0x3498db)), (0x34, 0x98, 0xdb, 255));
    assert_eq!(yx_bot::quote::nickname_colour(None), (255, 255, 255, 255));
}
