//! The quote card around the picture: whose name it shows, where the avatar
//! comes from, what the file is called, and where each element stands.

use vstd::prelude::*;
use crate::decimal::{decimal_nat, push_u128};
use crate::text::contains_char;
use crate::canvas::{
    byte_len, fill_byte, overlaid, CardError, LogoPictures, PixelCanvas, AVATAR_SIDE, ICON_BOX,
};

verus! {

// ---------------------------------------------------------------- names

/// How far the lookup of the quoted author's display name has come.
#[derive(Debug, Clone, Copy, PartialEq, Eq)]
pub enum NameLookupStage {
    /// Nothing asked yet.
    Start,
    /// The guild member was asked for through the cache.
    AskedCache,
    /// The guild member was asked for over HTTP.
    AskedHttp,
    /// A name was chosen.
    Done,
}

/// What the lookup learned.
pub enum NameLookupEvent {
    /// The lookup begins; `in_guild` says whether the message was sent in a guild.
    Begin { in_guild: bool },
    /// The cache answered: the member's display name, or nothing.
    CacheAnswer(Option<String>),
    /// The HTTP request answered: the member's display name, or nothing.
    HttpAnswer(Option<String>),
}

/// What the caller does next.
pub enum NameLookupAction {
    /// Ask for the guild member through the cache.
    AskCache,
    /// Ask for the guild member over HTTP.
    AskHttp,
    /// Show this name.
    Show(String),
}

/// The author's own names: the global display name, if set, and the
/// user name.
pub struct AuthorNames {
    pub global_name: Option<String>,
    pub username: String,
}

/// The name shown when no guild member name is had: the global display
/// name, else the user name.
pub open spec fn fallback_name(global_name: Option<String>, username: Seq<char>) -> Seq<char> {
    match global_name {
        Some(g) => g@,
        None => username,
    }
}

/// The stage and action after `event` at `stage`, as plain values: the
/// action is `0` for asking the cache, `1` for asking over HTTP, `2` for
/// showing the name given.
pub open spec fn lookup_step(stage: NameLookupStage, event: NameLookupEvent, author: AuthorNames) -> (
    NameLookupStage,
    int,
    Seq<char>,
) {
    match event {
        NameLookupEvent::Begin { in_guild } => if in_guild {
            (NameLookupStage::AskedCache, 0, seq![])
        } else {
            (NameLookupStage::Done, 2, fallback_name(author.global_name, author.username@))
        },
        NameLookupEvent::CacheAnswer(found) => match found {
            Some(name) => (NameLookupStage::Done, 2, name@),
            None => (NameLookupStage::AskedHttp, 1, seq![]),
        },
        NameLookupEvent::HttpAnswer(found) => match found {
            Some(name) => (NameLookupStage::Done, 2, name@),
            None => (NameLookupStage::Done, 2, fallback_name(author.global_name, author.username@)),
        },
    }
}

/// Whether `event` can come at `stage`.
pub open spec fn event_fits(stage: NameLookupStage, event: NameLookupEvent) -> bool {
    match event {
        NameLookupEvent::Begin { .. } => stage == NameLookupStage::Start,
        NameLookupEvent::CacheAnswer(_) => stage == NameLookupStage::AskedCache,
        NameLookupEvent::HttpAnswer(_) => stage == NameLookupStage::AskedHttp,
    }
}

/// An action as plain values, as `lookup_step` writes it.
pub open spec fn action_view(a: NameLookupAction) -> (int, Seq<char>) {
    match a {
        NameLookupAction::AskCache => (0, seq![]),
        NameLookupAction::AskHttp => (1, seq![]),
        NameLookupAction::Show(name) => (2, name@),
    }
}

fn fallback(author: &AuthorNames) -> (s: String)
    ensures
        s@ == fallback_name(author.global_name, author.username@),
{
    match &author.global_name {
        Some(g) => g.clone(),
        None => author.username.clone(),
    }
}

/// One step of the display-name lookup: in a guild the member is asked for
/// through the cache, then over HTTP; without a guild, or when neither
/// answers, the author's global name, else the user name, is shown.
pub fn next_name_step(stage: NameLookupStage, event: NameLookupEvent, author: &AuthorNames) -> (r: (
    NameLookupStage,
    NameLookupAction,
))
    requires
        event_fits(stage, event),
    ensures
        (r.0, action_view(r.1).0, action_view(r.1).1) == lookup_step(stage, event, *author),
{
    match event {
        NameLookupEvent::Begin { in_guild } => if in_guild {
            (NameLookupStage::AskedCache, NameLookupAction::AskCache)
        } else {
            (NameLookupStage::Done, NameLookupAction::Show(fallback(author)))
        },
        NameLookupEvent::CacheAnswer(found) => match found {
            Some(name) => (NameLookupStage::Done, NameLookupAction::Show(name)),
            None => (NameLookupStage::AskedHttp, NameLookupAction::AskHttp),
        },
        NameLookupEvent::HttpAnswer(found) => match found {
            Some(name) => (NameLookupStage::Done, NameLookupAction::Show(name)),
            None => (NameLookupStage::Done, NameLookupAction::Show(fallback(author))),
        },
    }
}

/// The name a complete lookup shows: in a guild the member name from the
/// cache, else from HTTP, else the author's fallback; outside a guild the
/// fallback.
pub open spec fn shown_name(
    in_guild: bool,
    cache: Option<String>,
    http: Option<String>,
    author: AuthorNames,
) -> Seq<char> {
    if !in_guild {
        fallback_name(author.global_name, author.username@)
    } else if cache is Some {
        cache->0@
    } else if http is Some {
        http->0@
    } else {
        fallback_name(author.global_name, author.username@)
    }
}

/// A lookup driven to its end shows `shown_name`, asks over HTTP only when
/// the cache had no member, and asks nothing outside a guild.
pub proof fn lemma_lookup_shows_first_found(
    in_guild: bool,
    cache: Option<String>,
    http: Option<String>,
    author: AuthorNames,
)
    ensures
        ({
            let s1 = lookup_step(NameLookupStage::Start, NameLookupEvent::Begin { in_guild }, author);
            let s2 = lookup_step(s1.0, NameLookupEvent::CacheAnswer(cache), author);
            let s3 = lookup_step(s2.0, NameLookupEvent::HttpAnswer(http), author);
            &&& !in_guild ==> s1.0 == NameLookupStage::Done && s1.1 == 2 && s1.2 == shown_name(
                in_guild,
                cache,
                http,
                author,
            )
            &&& in_guild ==> s1.1 == 0 && s1.0 == NameLookupStage::AskedCache
            &&& in_guild && cache is Some ==> s2.0 == NameLookupStage::Done && s2.1 == 2 && s2.2
                == shown_name(in_guild, cache, http, author)
            &&& in_guild && cache is None ==> s2.1 == 1 && s2.0 == NameLookupStage::AskedHttp
                && s3.0 == NameLookupStage::Done && s3.1 == 2 && s3.2 == shown_name(
                in_guild,
                cache,
                http,
                author,
            )
        }),
{
}

// ---------------------------------------------------------------- media, colour

/// Only plain text is quoted: a message with attachments, stickers or
/// embeds is refused.
pub fn quotable(attachments: usize, stickers: usize, embeds: usize) -> (r: bool)
    ensures
        r == (attachments == 0 && stickers == 0 && embeds == 0),
{
    attachments == 0 && stickers == 0 && embeds == 0
}

/// The answer when a message holding media is asked to be quoted.
pub const MEDIA_REFUSAL: &'static str = "❌ Only text messages can be quoted: this one holds images, stickers or embeds.";

/// The nickname's colour (red, green, blue, alpha): the author's role
/// colour `0xRRGGBB` when there is one, white otherwise.
pub open spec fn nickname_rgba(role: Option<u32>) -> (u8, u8, u8, u8) {
    match role {
        Some(c) => (((c / 65536) % 256) as u8, ((c / 256) % 256) as u8, (c % 256) as u8, 255u8),
        None => (255u8, 255u8, 255u8, 255u8),
    }
}

/// The nickname's colour for the author's role colour, if any.
pub fn nickname_colour(role: Option<u32>) -> (c: (u8, u8, u8, u8))
    ensures
        c == nickname_rgba(role),
{
    match role {
        Some(c) => (((c / 65536) % 256) as u8, ((c / 256) % 256) as u8, (c % 256) as u8, 255),
        None => (255, 255, 255, 255),
    }
}

// ---------------------------------------------------------------- avatar, file

/// The avatar address asked at 4096 pixels: `&size=4096` appended when
/// the address already has a query, `?size=4096` otherwise.
pub open spec fn large_avatar(url: Seq<char>) -> Seq<char> {
    if url.contains('?') {
        url + "&size=4096"@
    } else {
        url + "?size=4096"@
    }
}

/// The address of the author's avatar at its largest size.
pub fn large_avatar_url(url: &str) -> (r: String)
    ensures
        r@ == large_avatar(url@),
{
    let mut r = String::from_str(url);
    if contains_char(url, '?') {
        r.append("&size=4096");
    } else {
        r.append("?size=4096");
    }
    r
}

/// The name of the uploaded card: `quote_`, the nanoseconds and then the
/// milliseconds since the epoch, `.png`.
pub open spec fn quote_file(nanos: nat, millis: nat) -> Seq<char> {
    "quote_"@ + decimal_nat(nanos) + decimal_nat(millis) + ".png"@
}

/// The file name of a card made at `nanos` and `millis` since the epoch.
pub fn quote_file_name(nanos: u128, millis: u128) -> (r: String)
    ensures
        r@ == quote_file(nanos as nat, millis as nat),
{
    let mut r = String::from_str("quote_");
    push_u128(&mut r, nanos);
    push_u128(&mut r, millis);
    r.append(".png");
    r
}

/// The author's handle under the nickname: `@` and the user name.
pub fn handle_text(username: &str) -> (r: String)
    ensures
        r@ == "@"@ + username@,
{
    let mut r = String::from_str("@");
    r.append(username);
    r
}

/// The footer printed at the bottom of every card: the configured one, or
/// `CARD_FOOTER` when none is configured.
pub fn footer_text(configured: Option<String>) -> (r: String)
    ensures
        r@ == match configured {
            Some(f) => f@,
            None => CARD_FOOTER@,
        },
{
    match configured {
        Some(f) => f,
        None => String::from_str(CARD_FOOTER),
    }
}

/// Where the card's font and logo are read from: the configured directory;
/// else the resources directory of the bot's own crate when the bot runs from
/// the workspace root (`bundled_present`); else `resources`.
pub fn resource_dir(configured: Option<String>, bundled_present: bool) -> (r: String)
    ensures
        r@ == match configured {
            Some(d) => d@,
            None => if bundled_present {
                BUNDLED_RESOURCE_DIR@
            } else {
                "resources"@
            },
        },
{
    match configured {
        Some(d) => d,
        None => if bundled_present {
            String::from_str(BUNDLED_RESOURCE_DIR)
        } else {
            String::from_str("resources")
        },
    }
}

/// The resources directory of the bot's crate, seen from the workspace root.
pub const BUNDLED_RESOURCE_DIR: &'static str = "crates/yx-bot/resources";

/// The footer line of the card when none is configured.
pub const CARD_FOOTER: &'static str =
    "Stop stealing our stuffs, go join us! discord.gg/aqwcruel and add referrer : ainsworth";

// ---------------------------------------------------------------- layout

/// Width of the card, in pixels (the Open Graph size).
pub const CARD_WIDTH: u32 = 1200;
/// Height of the card.
pub const CARD_HEIGHT: u32 = 630;
/// Where the right section begins: the avatar fills the left section.
pub const PANEL_X: u32 = AVATAR_SIDE;
/// Width of the right section.
pub const PANEL_WIDTH: u32 = CARD_WIDTH - PANEL_X;
/// Margin inside the right section.
pub const PADDING: u32 = 40;
/// Where quoted lines may start, at the leftmost.
pub const TEXT_X: u32 = PANEL_X + PADDING;
/// Widest a line of quoted text may be.
pub const MAX_TEXT_WIDTH: u32 = PANEL_WIDTH - 2 * PADDING;
/// Top of the area for the text and the names: under the icon's row.
pub const TEXT_AREA_TOP: u32 = PADDING + ICON_BOX + 12;
/// Height of the area for the text and the names, which ends above the footer.
pub const TEXT_AREA_HEIGHT: u32 = CARD_HEIGHT - 70 - TEXT_AREA_TOP;
/// Space between the quoted text and the nickname.
pub const NAME_GAP: u32 = 24;
/// Height of the nickname's line.
pub const NICKNAME_LINE: u32 = 30;
/// Height of the handle's line.
pub const HANDLE_LINE: u32 = 24;
/// Height of the names under the text, with the gap above them.
pub const NAME_BLOCK: u32 = NAME_GAP + NICKNAME_LINE + HANDLE_LINE;
/// Top of the footer line.
pub const FOOTER_Y: u32 = CARD_HEIGHT - 30;
/// The card's background colour.
pub const BACKGROUND: (u8, u8, u8, u8) = (15, 15, 15, 255);

/// The sizes tried for the quoted text, largest first.
pub open spec fn font_sizes() -> Seq<u32> {
    seq![40u32, 36u32, 32u32, 28u32, 24u32, 20u32, 16u32]
}

/// The sizes tried for the quoted text, largest first.
pub fn content_font_sizes() -> (v: Vec<u32>)
    ensures
        v@ == font_sizes(),
{
    let v: Vec<u32> = vec![40, 36, 32, 28, 24, 20, 16];
    assert(v@ =~= font_sizes());
    v
}

/// The height of a line of text of the given size.
pub open spec fn line_height(size: u32) -> int {
    size * 9 / 7
}

/// Whether `lines` lines of the given size, with the names under them, fit
/// in the text area.
pub open spec fn block_fits(size: u32, lines: int) -> bool {
    lines * line_height(size) + NAME_BLOCK <= TEXT_AREA_HEIGHT
}

/// Whether `lines` lines of text of size `size` fit on the card with the
/// names under them.
pub fn text_block_fits(size: u32, lines: usize) -> (r: bool)
    ensures
        r == block_fits(size, lines as int),
{
    let lh: u128 = (size as u128) * 9 / 7;
    assert((lines as int) * (lh as int) <= 0x10_0000_0000_0000_0000_0000_0000) by (nonlinear_arith)
        requires
            0 <= lines <= 0xFFFF_FFFF_FFFF_FFFF,
            0 <= lh <= 0x2_0000_0000,
    ;
    (lines as u128) * lh + (NAME_BLOCK as u128) <= TEXT_AREA_HEIGHT as u128
}

/// Whether the text wrapped at the `i`-th size fits the card: no line was
/// judged wider than the text area, and the lines with the names under
/// them fit its height.
pub open spec fn size_fits(counts: Seq<usize>, too_wide: Seq<bool>, i: int) -> bool {
    !too_wide[i] && block_fits(font_sizes()[i], counts[i] as int)
}

/// Picks the size of the quoted text. For each size of
/// `content_font_sizes`, `counts` holds how many lines wrapping gave and
/// `too_wide` whether any of them was judged wider than `MAX_TEXT_WIDTH`.
/// The choice is the largest size at which the text fits in width and
/// height, or the smallest size when none fits.
pub fn choose_font_size(counts: &Vec<usize>, too_wide: &Vec<bool>) -> (i: usize)
    requires
        counts@.len() == font_sizes().len(),
        too_wide@.len() == font_sizes().len(),
    ensures
        i < font_sizes().len(),
        forall|j: int| 0 <= j < i ==> !#[trigger] size_fits(counts@, too_wide@, j),
        size_fits(counts@, too_wide@, i as int) || (i == font_sizes().len() - 1 && forall|j: int|
            0 <= j < font_sizes().len() ==> !#[trigger] size_fits(counts@, too_wide@, j)),
{
    let sizes = content_font_sizes();
    let n: usize = sizes.len();
    let mut i: usize = 0;
    while i < n
        invariant
            n == font_sizes().len(),
            sizes@ == font_sizes(),
            counts@.len() == n,
            too_wide@.len() == n,
            i <= n,
            forall|j: int| 0 <= j < i ==> !#[trigger] size_fits(counts@, too_wide@, j),
        decreases n - i,
    {
        if !too_wide[i] && text_block_fits(sizes[i], counts[i]) {
            return i;
        }
        i = i + 1;
    }
    n - 1
}

/// Where the text and the names stand for `line_count` lines at the
/// `size_index`-th size.
#[derive(Debug, Clone, Copy, PartialEq, Eq)]
pub struct CardLayout {
    pub font_size: u32,
    pub line_height: u32,
    pub line_count: u32,
    pub text_top: i64,
    pub nickname_y: i64,
    pub handle_y: i64,
}

/// The layout for `lines` lines of size `size`: the text with the names
/// under it, centred vertically in the text area when it fits there, else
/// starting at its top.
pub open spec fn layout_spec(size: u32, lines: nat) -> CardLayout {
    let lh = line_height(size);
    let th = lines * lh;
    let block = th + NAME_BLOCK;
    let top = if block <= TEXT_AREA_HEIGHT {
        TEXT_AREA_TOP + (TEXT_AREA_HEIGHT - block) / 2
    } else {
        TEXT_AREA_TOP as int
    };
    CardLayout {
        font_size: size,
        line_height: lh as u32,
        line_count: lines as u32,
        text_top: top as i64,
        nickname_y: (top + th + NAME_GAP) as i64,
        handle_y: (top + th + NAME_GAP + NICKNAME_LINE) as i64,
    }
}

/// Where the text and names stand for `line_count` lines of the
/// `size_index`-th size of `content_font_sizes`.
pub fn card_layout(size_index: usize, line_count: usize) -> (l: CardLayout)
    requires
        size_index < font_sizes().len(),
        line_count <= u32::MAX,
    ensures
        l == layout_spec(font_sizes()[size_index as int], line_count as nat),
        l.text_top >= TEXT_AREA_TOP,
        block_fits(l.font_size, line_count as int) ==> l.handle_y + HANDLE_LINE <= TEXT_AREA_TOP
            + TEXT_AREA_HEIGHT,
{
    let sizes = content_font_sizes();
    let size: u32 = sizes[size_index];
    assert(size <= 40);
    let lh: u32 = size * 9 / 7;
    assert((line_count as int) * (lh as int) <= 0x100_0000_0000) by (nonlinear_arith)
        requires
            0 <= line_count <= 0xFFFF_FFFF,
            0 <= lh <= 51,
    ;
    let th: i64 = (line_count as i64) * (lh as i64);
    let block: i64 = th + NAME_BLOCK as i64;
    let top: i64 = if block <= TEXT_AREA_HEIGHT as i64 {
        TEXT_AREA_TOP as i64 + (TEXT_AREA_HEIGHT as i64 - block) / 2
    } else {
        TEXT_AREA_TOP as i64
    };
    CardLayout {
        font_size: size,
        line_height: lh,
        line_count: line_count as u32,
        text_top: top,
        nickname_y: top + th + NAME_GAP as i64,
        handle_y: top + th + NAME_GAP as i64 + NICKNAME_LINE as i64,
    }
}

impl CardLayout {
    /// The top of each quoted line, from the first down, one line height
    /// apart.
    pub fn line_tops(&self) -> (ys: Vec<i64>)
        requires
            self.text_top + self.line_count * self.line_height <= i64::MAX,
        ensures
            ys@.len() == self.line_count,
            forall|i: int|
                0 <= i < self.line_count ==> #[trigger] ys@[i] == self.text_top + i
                    * self.line_height,
    {
        let mut ys: Vec<i64> = Vec::new();
        let mut y: i64 = self.text_top;
        let mut i: u32 = 0;
        while i < self.line_count
            invariant
                i <= self.line_count,
                self.text_top + self.line_count * self.line_height <= i64::MAX,
                y == self.text_top + i * self.line_height,
                ys@.len() == i,
                forall|j: int|
                    0 <= j < i ==> #[trigger] ys@[j] == self.text_top + j * self.line_height,
            decreases self.line_count - i,
        {
            ys.push(y);
            assert(self.text_top + (i + 1) * self.line_height <= self.text_top + self.line_count
                * self.line_height && (i + 1) * self.line_height == i * self.line_height
                + self.line_height) by (nonlinear_arith)
                requires
                    i < self.line_count,
                    self.line_height >= 0,
            ;
            y = y + self.line_height as i64;
            i = i + 1;
        }
        ys
    }
}

/// Where a picture `len` long is placed to stand centred in a span
/// starting at `start` and `span` long: at the span's start if it is longer.
pub open spec fn centred_in(start: int, span: int, len: int) -> int {
    if len <= span {
        start + (span - len) / 2
    } else {
        start
    }
}

fn centre(start: u32, span: u32, len: u32) -> (x: i64)
    ensures
        x == centred_in(start as int, span as int, len as int),
{
    if len <= span {
        start as i64 + ((span - len) / 2) as i64
    } else {
        start as i64
    }
}

/// Where the icon's left edge stands: against the right margin of the
/// card, or at the right section's start if it is wider than the section.
pub open spec fn icon_x(len: int) -> int {
    if len <= PANEL_WIDTH - PADDING {
        CARD_WIDTH - PADDING - len
    } else {
        PANEL_X as int
    }
}

/// The card before its text is drawn, as plain bytes: the background; the
/// watermark blended on, centred in the right section and centred
/// vertically; the icon blended on at the top right, inside the margins;
/// then the avatar blended on at the top left.
pub open spec fn card_base_bytes(avatar: PixelCanvas, mark: PixelCanvas, icon: PixelCanvas) -> Seq<u8> {
    let ground = Seq::new(
        byte_len(CARD_WIDTH as int, CARD_HEIGHT as int) as nat,
        |i: int| fill_byte(BACKGROUND, i),
    );
    let marked = overlaid(
        CARD_WIDTH,
        CARD_HEIGHT,
        ground,
        mark.w(),
        mark.h(),
        mark.bytes(),
        centred_in(PANEL_X as int, PANEL_WIDTH as int, mark.w() as int) as i64,
        centred_in(0, CARD_HEIGHT as int, mark.h() as int) as i64,
    );
    let iconed = overlaid(
        CARD_WIDTH,
        CARD_HEIGHT,
        marked,
        icon.w(),
        icon.h(),
        icon.bytes(),
        icon_x(icon.w() as int) as i64,
        PADDING as i64,
    );
    overlaid(CARD_WIDTH, CARD_HEIGHT, iconed, avatar.w(), avatar.h(), avatar.bytes(), 0, 0)
}

/// The card before its text: `CARD_WIDTH` × `CARD_HEIGHT`, whatever the
/// pictures' sizes.
pub fn card_base(avatar: &PixelCanvas, logo: &LogoPictures) -> (c: PixelCanvas)
    ensures
        c.w() == CARD_WIDTH,
        c.h() == CARD_HEIGHT,
        c.bytes() == card_base_bytes(*avatar, logo.watermark, logo.icon),
{
    let ground = PixelCanvas::filled(CARD_WIDTH, CARD_HEIGHT, BACKGROUND);
    assert(ground.bytes() =~= Seq::new(
        byte_len(CARD_WIDTH as int, CARD_HEIGHT as int) as nat,
        |i: int| fill_byte(BACKGROUND, i),
    ));
    let mx = centre(PANEL_X, PANEL_WIDTH, logo.watermark.width());
    let my = centre(0, CARD_HEIGHT, logo.watermark.height());
    let marked = ground.overlay(&logo.watermark, mx, my);
    let iw = logo.icon.width();
    let ix: i64 = if iw <= PANEL_WIDTH - PADDING {
        (CARD_WIDTH - PADDING - iw) as i64
    } else {
        PANEL_X as i64
    };
    let iconed = marked.overlay(&logo.icon, ix, PADDING as i64);
    iconed.overlay(avatar, 0, 0)
}

// ---------------------------------------------------------------- font

/// `ab_glyph::FontVec`, a parsed font that owns its bytes.
#[verifier::external_type_specification]
#[verifier::external_body]
pub struct ExFontVec(ab_glyph::FontVec);

/// `ab_glyph::InvalidFont`, the font parser's refusal.
#[verifier::external_type_specification]
#[verifier::external_body]
pub struct ExInvalidFont(ab_glyph::InvalidFont);

/// The name for whether `ab_glyph::FontVec::try_from_vec` reads `bytes` as
/// a font (the first face of a TrueType or OpenType file, parsed by
/// `ttf-parser`): it depends on the bytes alone.
pub uninterp spec fn font_parses(bytes: Seq<u8>) -> bool;

/// Calls `ab_glyph::FontVec::try_from_vec`. Claims only that it succeeds
/// exactly when `font_parses` holds of the bytes.
#[verifier::external_body]
fn parse_font(bytes: Vec<u8>) -> (r: Result<ab_glyph::FontVec, ab_glyph::InvalidFont>)
    ensures
        font_parses(bytes@) <==> r is Ok,
{
    ab_glyph::FontVec::try_from_vec(bytes)
}

/// The card's font from the bytes of its font file; refused exactly where
/// the parser refuses them.
pub fn card_font(bytes: Vec<u8>) -> (r: Result<ab_glyph::FontVec, CardError>)
    ensures
        r is Ok <==> font_parses(bytes@),
        r matches Err(e) ==> e is Font,
{
    match parse_font(bytes) {
        Ok(font) => Ok(font),
        Err(e) => Err(CardError::Font(e)),
    }
}

} // verus!
