//! Emoji in quoted text: a line split into runs of text, custom server
//! emoji (`<:name:id>`, `<a:name:id>` when animated) and Unicode emoji, and
//! where the picture of each emoji is fetched from.

use vstd::prelude::*;
use crate::decimal::{decimal_nat, push_char, push_u128};
use crate::numbers::{digits_value, is_digit, lemma_decimal_digits, lemma_prefix_value};
use crate::text::chars_of;

verus! {

// ---------------------------------------------------------------- characters

/// A character allowed in a custom emoji's name.
pub open spec fn is_name_char(c: char) -> bool {
    let n = c as u32;
    ||| 48 <= n <= 57
    ||| 65 <= n <= 90
    ||| 97 <= n <= 122
    ||| c == '_'
}

/// A character that begins a Unicode emoji: the pictographic blocks
/// (miscellaneous technical, miscellaneous symbols, dingbats, arrows and
/// shapes of the `2B00` block, and the plane-one blocks from mahjong tiles
/// to symbols and pictographs extended-A).
pub open spec fn is_pictograph(c: char) -> bool {
    let n = c as u32;
    ||| 0x2300 <= n <= 0x23FF
    ||| 0x2600 <= n <= 0x27BF
    ||| 0x2B00 <= n <= 0x2BFF
    ||| 0x1F000 <= n <= 0x1FAFF
}

/// A character that continues the emoji before it: the emoji variation
/// selector, the skin tones, the keycap mark and the tag characters.
pub open spec fn is_modifier(c: char) -> bool {
    let n = c as u32;
    ||| n == 0xFE0F
    ||| 0x1F3FB <= n <= 0x1F3FF
    ||| n == 0x20E3
    ||| 0xE0020 <= n <= 0xE007F
}

/// A regional indicator letter; two of them make a flag.
pub open spec fn is_regional(c: char) -> bool {
    0x1F1E6 <= (c as u32) <= 0x1F1FF
}

/// The zero-width joiner, which glues two emoji into one.
pub open spec fn is_joiner(c: char) -> bool {
    c as u32 == 0x200D
}

fn name_char(c: char) -> (b: bool)
    ensures
        b == is_name_char(c),
{
    let n: u32 = c as u32;
    (48 <= n && n <= 57) || (65 <= n && n <= 90) || (97 <= n && n <= 122) || c == '_'
}

fn pictograph(c: char) -> (b: bool)
    ensures
        b == is_pictograph(c),
{
    let n: u32 = c as u32;
    (0x2300 <= n && n <= 0x23FF) || (0x2600 <= n && n <= 0x27BF) || (0x2B00 <= n && n <= 0x2BFF)
        || (0x1F000 <= n && n <= 0x1FAFF)
}

fn modifier(c: char) -> (b: bool)
    ensures
        b == is_modifier(c),
{
    let n: u32 = c as u32;
    n == 0xFE0F || (0x1F3FB <= n && n <= 0x1F3FF) || n == 0x20E3 || (0xE0020 <= n && n <= 0xE007F)
}

fn regional(c: char) -> (b: bool)
    ensures
        b == is_regional(c),
{
    let n: u32 = c as u32;
    0x1F1E6 <= n && n <= 0x1F1FF
}

// ---------------------------------------------------------------- runs

/// How many name characters follow one another in `s` from `j`.
pub open spec fn name_run(s: Seq<char>, j: int) -> nat
    decreases s.len() - j,
{
    if 0 <= j < s.len() && is_name_char(s[j]) {
        1 + name_run(s, j + 1)
    } else {
        0
    }
}

/// How many digits follow one another in `s` from `j`.
pub open spec fn digit_run(s: Seq<char>, j: int) -> nat
    decreases s.len() - j,
{
    if 0 <= j < s.len() && is_digit(s[j]) {
        1 + digit_run(s, j + 1)
    } else {
        0
    }
}

/// How many characters after an emoji's first (or a flag's two letters),
/// from `j`, still belong to it: modifiers, and joiners each followed by a
/// pictograph.
pub open spec fn cluster_tail(s: Seq<char>, j: int) -> nat
    decreases s.len() - j,
{
    if 0 <= j < s.len() && is_modifier(s[j]) {
        1 + cluster_tail(s, j + 1)
    } else if 0 <= j && j + 1 < s.len() && is_joiner(s[j]) && is_pictograph(s[j + 1]) {
        2 + cluster_tail(s, j + 2)
    } else {
        0
    }
}

proof fn lemma_name_run_within(s: Seq<char>, j: int)
    requires
        0 <= j <= s.len(),
    ensures
        j + name_run(s, j) <= s.len(),
        forall|k: int| j <= k < j + name_run(s, j) ==> is_name_char(#[trigger] s[k]),
    decreases s.len() - j,
{
    if j < s.len() && is_name_char(s[j]) {
        lemma_name_run_within(s, j + 1);
    }
}

proof fn lemma_digit_run_within(s: Seq<char>, j: int)
    requires
        0 <= j <= s.len(),
    ensures
        j + digit_run(s, j) <= s.len(),
        forall|k: int| j <= k < j + digit_run(s, j) ==> is_digit(#[trigger] s[k]),
    decreases s.len() - j,
{
    if j < s.len() && is_digit(s[j]) {
        lemma_digit_run_within(s, j + 1);
    }
}

/// What continues an emoji stays within the line.
pub proof fn lemma_cluster_tail_within(s: Seq<char>, j: int)
    requires
        0 <= j <= s.len(),
    ensures
        j + cluster_tail(s, j) <= s.len(),
    decreases s.len() - j,
{
    if j < s.len() && is_modifier(s[j]) {
        lemma_cluster_tail_within(s, j + 1);
    } else if j + 1 < s.len() && is_joiner(s[j]) && is_pictograph(s[j + 1]) {
        lemma_cluster_tail_within(s, j + 2);
    }
}

// ---------------------------------------------------------------- pieces

/// A custom server emoji written at `i` of `s`: `<`, an `a` when it is
/// animated, `:`, a name of at least one name character, `:`, the id in
/// decimal (at least one digit, at most `u64::MAX`) and `>`. Gives where it
/// ends, its id and whether it is animated.
pub open spec fn custom_at(s: Seq<char>, i: int) -> Option<(int, u64, bool)> {
    let animated = i + 1 < s.len() && s[i + 1] == 'a';
    let p = if animated { i + 2 } else { i + 1 };
    let n = name_run(s, p + 1);
    let q = p + 1 + n;
    let d = digit_run(s, q + 1);
    let e = q + 1 + d;
    if 0 <= i && e < s.len() && s[i] == '<' && s[p] == ':' && n >= 1 && s[q] == ':' && d >= 1
        && s[e] == '>' && digits_value(s.subrange(q + 1, e)) <= u64::MAX {
        Some((e + 1, digits_value(s.subrange(q + 1, e)) as u64, animated))
    } else {
        None
    }
}

/// Where the Unicode emoji beginning at `i` of `s` ends: after a flag's two
/// letters, or after its first character, and then after what continues it.
pub open spec fn emoji_end(s: Seq<char>, i: int) -> int {
    let start = if i + 1 < s.len() && is_regional(s[i]) && is_regional(s[i + 1]) {
        i + 2
    } else {
        i + 1
    };
    start + cluster_tail(s, start)
}

/// A piece of a line, as plain values.
pub enum PieceView {
    Text(Seq<char>),
    Custom { id: u64, animated: bool },
    Unicode(Seq<char>),
}

/// A piece of a line: a run of text, a custom server emoji, or a Unicode
/// emoji (its characters).
#[derive(Debug, Clone, PartialEq, Eq)]
pub enum Piece {
    Text(String),
    Custom { id: u64, animated: bool },
    Unicode(String),
}

impl Piece {
    /// The piece as plain values.
    pub open spec fn view_piece(&self) -> PieceView {
        match self {
            Piece::Text(t) => PieceView::Text(t@),
            Piece::Custom { id, animated } => PieceView::Custom { id: *id, animated: *animated },
            Piece::Unicode(e) => PieceView::Unicode(e@),
        }
    }
}

/// The views of a sequence of pieces.
pub open spec fn piece_views(v: Seq<Piece>) -> Seq<PieceView> {
    v.map_values(|p: Piece| p.view_piece())
}

/// `c` put before `rest`: into its first piece when that is text, else as
/// a text piece of its own.
pub open spec fn with_text(c: char, rest: Seq<PieceView>) -> Seq<PieceView> {
    if rest.len() > 0 && rest[0] is Text {
        rest.update(0, PieceView::Text(seq![c] + rest[0]->Text_0))
    } else {
        seq![PieceView::Text(seq![c])] + rest
    }
}

/// The pieces of `s` from `i` on, read from the left: a custom emoji where
/// one is written, a Unicode emoji where a pictograph stands, and the
/// characters between them gathered into runs of text.
pub open spec fn pieces_from(s: Seq<char>, i: int) -> Seq<PieceView>
    decreases s.len() - i,
{
    if i < 0 || i >= s.len() {
        seq![]
    } else if custom_at(s, i) is Some {
        let (e, id, animated) = custom_at(s, i)->0;
        seq![PieceView::Custom { id, animated }] + pieces_from(s, e)
    } else if is_pictograph(s[i]) {
        let e = emoji_end(s, i);
        proof {
            let start = if i + 1 < s.len() && is_regional(s[i]) && is_regional(s[i + 1]) {
                i + 2
            } else {
                i + 1
            };
            lemma_cluster_tail_within(s, start);
        }
        seq![PieceView::Unicode(s.subrange(i, e))] + pieces_from(s, e)
    } else {
        with_text(s[i], pieces_from(s, i + 1))
    }
}

/// The pieces of a line.
pub open spec fn pieces(s: Seq<char>) -> Seq<PieceView> {
    pieces_from(s, 0)
}

/// The characters a piece shows as text: a run's or a Unicode emoji's own;
/// a custom emoji shows a picture only.
pub open spec fn shown_chars(p: PieceView) -> Seq<char> {
    match p {
        PieceView::Text(t) => t,
        PieceView::Unicode(e) => e,
        PieceView::Custom { .. } => seq![],
    }
}

/// The characters of a sequence of pieces, in order.
pub open spec fn all_shown(ps: Seq<PieceView>) -> Seq<char>
    decreases ps.len(),
{
    if ps.len() == 0 {
        seq![]
    } else {
        shown_chars(ps[0]) + all_shown(ps.drop_first())
    }
}

proof fn lemma_with_text_shows(c: char, rest: Seq<PieceView>)
    ensures
        all_shown(with_text(c, rest)) == seq![c] + all_shown(rest),
{
    let w = with_text(c, rest);
    if rest.len() > 0 && rest[0] is Text {
        assert(w.drop_first() =~= rest.drop_first());
        assert(all_shown(w) =~= seq![c] + all_shown(rest));
    } else {
        assert(w.drop_first() =~= rest);
        assert(all_shown(w) =~= seq![c] + all_shown(rest));
    }
}

proof fn lemma_pieces_show_rest(s: Seq<char>, i: int)
    requires
        0 <= i <= s.len(),
        !s.contains('<'),
    ensures
        all_shown(pieces_from(s, i)) == s.subrange(i, s.len() as int),
    decreases s.len() - i,
{
    if i < s.len() {
        assert(s[i] != '<');
        assert(custom_at(s, i) is None);
        if is_pictograph(s[i]) {
            let e = emoji_end(s, i);
            let start = if i + 1 < s.len() && is_regional(s[i]) && is_regional(s[i + 1]) {
                i + 2
            } else {
                i + 1
            };
            lemma_cluster_tail_within(s, start);
            lemma_pieces_show_rest(s, e);
            let ps = pieces_from(s, i);
            assert(ps.drop_first() =~= pieces_from(s, e));
            assert(all_shown(ps) =~= s.subrange(i, e) + s.subrange(e, s.len() as int));
            assert(s.subrange(i, e) + s.subrange(e, s.len() as int) =~= s.subrange(i, s.len() as int));
        } else {
            lemma_pieces_show_rest(s, i + 1);
            lemma_with_text_shows(s[i], pieces_from(s, i + 1));
            assert(seq![s[i]] + s.subrange(i + 1, s.len() as int) =~= s.subrange(i, s.len() as int));
        }
    } else {
        assert(s.subrange(i, s.len() as int) =~= seq![]);
    }
}

/// Splitting a line into pieces loses no character of it: where no custom
/// emoji can be written (no `<`), the pieces' characters, in order, are the
/// line itself.
pub proof fn lemma_pieces_keep_the_text(s: Seq<char>)
    requires
        !s.contains('<'),
    ensures
        all_shown(pieces(s)) == s,
{
    lemma_pieces_show_rest(s, 0);
    assert(s.subrange(0, s.len() as int) =~= s);
}

/// Whether the text between emoji is gathered into whole runs: no text
/// piece is empty, and no two text pieces follow one another.
pub open spec fn runs_gathered(ps: Seq<PieceView>) -> bool {
    &&& forall|k: int| 0 <= k < ps.len() && #[trigger] ps[k] is Text ==> ps[k]->Text_0.len() > 0
    &&& forall|k: int| 0 <= k && k + 1 < ps.len() && #[trigger] ps[k] is Text ==> !(ps[k + 1] is Text)
}

proof fn lemma_gathered_from(s: Seq<char>, i: int)
    requires
        0 <= i <= s.len(),
    ensures
        runs_gathered(pieces_from(s, i)),
    decreases s.len() - i,
{
    if i < s.len() {
        let ps = pieces_from(s, i);
        if custom_at(s, i) is Some {
            let (e, _, _) = custom_at(s, i)->0;
            lemma_gathered_from(s, e);
            let rest = pieces_from(s, e);
            assert forall|k: int| 0 <= k && k + 1 < ps.len() && #[trigger] ps[k] is Text implies !(
            ps[k + 1] is Text) by {
                assert(ps[k] == rest[k - 1]);
                assert(ps[k + 1] == rest[k]);
            }
            assert forall|k: int| 0 <= k < ps.len() && #[trigger] ps[k] is Text implies ps[k]->Text_0.len()
                > 0 by {
                assert(ps[k] == rest[k - 1]);
            }
        } else if is_pictograph(s[i]) {
            let e = emoji_end(s, i);
            let start = if i + 1 < s.len() && is_regional(s[i]) && is_regional(s[i + 1]) {
                i + 2
            } else {
                i + 1
            };
            lemma_cluster_tail_within(s, start);
            lemma_gathered_from(s, e);
            let rest = pieces_from(s, e);
            assert forall|k: int| 0 <= k && k + 1 < ps.len() && #[trigger] ps[k] is Text implies !(
            ps[k + 1] is Text) by {
                assert(ps[k] == rest[k - 1]);
                assert(ps[k + 1] == rest[k]);
            }
            assert forall|k: int| 0 <= k < ps.len() && #[trigger] ps[k] is Text implies ps[k]->Text_0.len()
                > 0 by {
                assert(ps[k] == rest[k - 1]);
            }
        } else {
            lemma_gathered_from(s, i + 1);
            let rest = pieces_from(s, i + 1);
            if rest.len() > 0 && rest[0] is Text {
                assert forall|k: int| 0 <= k && k + 1 < ps.len() && #[trigger] ps[k] is Text implies !(
                ps[k + 1] is Text) by {
                    assert(ps[k + 1] == rest[k + 1]);
                    if k > 0 {
                        assert(ps[k] == rest[k]);
                    }
                }
                assert forall|k: int| 0 <= k < ps.len() && #[trigger] ps[k] is Text implies ps[k]->Text_0.len()
                    > 0 by {
                    if k > 0 {
                        assert(ps[k] == rest[k]);
                    }
                }
            } else {
                assert forall|k: int| 0 <= k && k + 1 < ps.len() && #[trigger] ps[k] is Text implies !(
                ps[k + 1] is Text) by {
                    assert(ps[k + 1] == rest[k]);
                    if k > 0 {
                        assert(ps[k] == rest[k - 1]);
                    }
                }
                assert forall|k: int| 0 <= k < ps.len() && #[trigger] ps[k] is Text implies ps[k]->Text_0.len()
                    > 0 by {
                    if k > 0 {
                        assert(ps[k] == rest[k - 1]);
                    }
                }
            }
        }
    }
}

/// The text between emoji comes in whole runs: no text piece is empty and
/// no two text pieces follow one another.
pub proof fn lemma_text_runs_are_whole(s: Seq<char>)
    ensures
        runs_gathered(pieces(s)),
{
    lemma_gathered_from(s, 0);
}

/// Every character of the plane-one emoji blocks (mahjong tiles up to
/// symbols and pictographs extended-A, `U+1F000` to `U+1FAFF`), of the
/// miscellaneous symbols and dingbats (`U+2600` to `U+27BF`), of the
/// miscellaneous technical block (`U+2300` to `U+23FF`) and of the arrows
/// and shapes of `U+2B00` to `U+2BFF` begins a Unicode emoji: standing
/// where no custom emoji is written, it opens an emoji piece, and alone it
/// is one.
pub proof fn lemma_emoji_blocks_are_emoji(s: Seq<char>, i: int)
    requires
        0 <= i < s.len(),
        0x1F000 <= (s[i] as u32) <= 0x1FAFF || 0x2600 <= (s[i] as u32) <= 0x27BF || 0x2300 <= (
        s[i] as u32) <= 0x23FF || 0x2B00 <= (s[i] as u32) <= 0x2BFF,
    ensures
        pieces_from(s, i).len() > 0,
        pieces_from(s, i)[0] is Unicode,
        pieces_from(s, i)[0]->Unicode_0.len() > 0,
        pieces_from(s, i)[0]->Unicode_0[0] == s[i],
        pieces(seq![s[i]]) == seq![PieceView::Unicode(seq![s[i]])],
{
    assert(s[i] != '<');
    assert(custom_at(s, i) is None);
    let e = emoji_end(s, i);
    let start = if i + 1 < s.len() && is_regional(s[i]) && is_regional(s[i + 1]) {
        i + 2
    } else {
        i + 1
    };
    lemma_cluster_tail_within(s, start);
    assert(s.subrange(i, e)[0] == s[i]);
    let one = seq![s[i]];
    assert(custom_at(one, 0) is None);
    assert(cluster_tail(one, 1) == 0);
    assert(one.subrange(0, 1) =~= one);
    assert(pieces_from(one, 1) =~= seq![]);
    assert(pieces(one) =~= seq![PieceView::Unicode(one)]);
}

/// How a custom emoji is written: `<`, `a` when animated, `:`, the name,
/// `:`, the id in decimal, `>`.
pub open spec fn custom_text(name: Seq<char>, id: u64, animated: bool) -> Seq<char> {
    (if animated {
        seq!['<', 'a', ':']
    } else {
        seq!['<', ':']
    }) + name + seq![':'] + decimal_nat(id as nat) + seq!['>']
}

proof fn lemma_name_run_is(s: Seq<char>, j: int, k: int)
    requires
        0 <= j,
        0 <= k,
        j + k < s.len(),
        forall|m: int| j <= m < j + k ==> is_name_char(#[trigger] s[m]),
        !is_name_char(s[j + k]),
    ensures
        name_run(s, j) == k,
    decreases k,
{
    if k > 0 {
        lemma_name_run_is(s, j + 1, k - 1);
    }
}

proof fn lemma_digit_run_is(s: Seq<char>, j: int, k: int)
    requires
        0 <= j,
        0 <= k,
        j + k < s.len(),
        forall|m: int| j <= m < j + k ==> is_digit(#[trigger] s[m]),
        !is_digit(s[j + k]),
    ensures
        digit_run(s, j) == k,
    decreases k,
{
    if k > 0 {
        lemma_digit_run_is(s, j + 1, k - 1);
    }
}

/// A custom emoji written out, with any name of name characters and any
/// id, is read back as that one emoji: its id and whether it is animated.
pub proof fn lemma_custom_emoji_read_back(name: Seq<char>, id: u64, animated: bool)
    requires
        name.len() > 0,
        forall|k: int| 0 <= k < name.len() ==> is_name_char(#[trigger] name[k]),
    ensures
        pieces(custom_text(name, id, animated)) == seq![PieceView::Custom { id, animated }],
{
    let s = custom_text(name, id, animated);
    let d = decimal_nat(id as nat);
    lemma_decimal_digits(id as nat);
    let p: int = if animated { 2 } else { 1 };
    let q = p + 1 + name.len();
    let e = q + 1 + d.len();
    assert(s.len() == e + 1);
    assert(s[0] == '<');
    assert(s[1] == (if animated { 'a' } else { ':' }));
    assert(s[p] == ':');
    assert forall|m: int| p + 1 <= m < q implies is_name_char(#[trigger] s[m]) by {
        assert(s[m] == name[m - p - 1]);
    }
    assert(s[q] == ':');
    lemma_name_run_is(s, p + 1, name.len() as int);
    assert forall|m: int| q + 1 <= m < e implies is_digit(#[trigger] s[m]) by {
        assert(s[m] == d[m - q - 1]);
    }
    assert(s[e] == '>');
    lemma_digit_run_is(s, q + 1, d.len() as int);
    assert(s.subrange(q + 1, e) =~= d);
    assert(custom_at(s, 0) == Some((e + 1, id, animated)));
    assert(pieces_from(s, e + 1) =~= seq![]);
    assert(pieces(s) =~= seq![PieceView::Custom { id, animated }]);
}

/// What continues an emoji stays in its piece: a pictograph followed by a
/// modifier (a skin tone, the variation selector, the keycap mark, a tag),
/// two regional letters, and two pictographs glued by a joiner are each
/// one Unicode emoji.
pub proof fn lemma_emoji_sequences_hold_together(a: char, b: char, c: char)
    ensures
        0x1F000 <= (a as u32) <= 0x1FAFF && ((b as u32) == 0xFE0F || 0x1F3FB <= (b as u32) <= 0x1F3FF
            || (b as u32) == 0x20E3 || 0xE0020 <= (b as u32) <= 0xE007F) ==> pieces(seq![a, b])
            == seq![PieceView::Unicode(seq![a, b])],
        0x1F1E6 <= (a as u32) <= 0x1F1FF && 0x1F1E6 <= (b as u32) <= 0x1F1FF ==> pieces(seq![a, b])
            == seq![PieceView::Unicode(seq![a, b])],
        0x1F000 <= (a as u32) <= 0x1FAFF && (b as u32) == 0x200D && 0x1F000 <= (c as u32) <= 0x1FAFF
            ==> pieces(seq![a, b, c]) == seq![PieceView::Unicode(seq![a, b, c])],
{
    let two = seq![a, b];
    let three = seq![a, b, c];
    if is_pictograph(a) && is_modifier(b) {
        assert(cluster_tail(two, 2) == 0);
        if is_regional(a) && is_regional(b) {
        } else {
            assert(cluster_tail(two, 1) == 1);
        }
        assert(two.subrange(0, 2) =~= two);
        assert(pieces_from(two, 2) =~= seq![]);
        assert(pieces(two) =~= seq![PieceView::Unicode(two)]);
    }
    if is_regional(a) && is_regional(b) {
        assert(cluster_tail(two, 2) == 0);
        assert(two.subrange(0, 2) =~= two);
        assert(pieces_from(two, 2) =~= seq![]);
        assert(pieces(two) =~= seq![PieceView::Unicode(two)]);
    }
    if is_pictograph(a) && is_joiner(b) && is_pictograph(c) {
        assert(!is_regional(b));
        assert(!is_modifier(b));
        assert(cluster_tail(three, 3) == 0);
        assert(cluster_tail(three, 1) == 2);
        assert(three.subrange(0, 3) =~= three);
        assert(pieces_from(three, 3) =~= seq![]);
        assert(pieces(three) =~= seq![PieceView::Unicode(three)]);
    }
}

// ---------------------------------------------------------------- reading

fn name_run_at(v: &Vec<char>, j: usize) -> (n: usize)
    requires
        j <= v@.len(),
    ensures
        n == name_run(v@, j as int),
{
    let len: usize = v.len();
    let mut k: usize = j;
    while k < len
        invariant
            len == v@.len(),
            j <= k <= len,
            name_run(v@, j as int) == (k - j) + name_run(v@, k as int),
        decreases len - k,
    {
        if !name_char(v[k]) {
            return k - j;
        }
        k = k + 1;
    }
    k - j
}

fn digit_run_at(v: &Vec<char>, j: usize) -> (n: usize)
    requires
        j <= v@.len(),
    ensures
        n == digit_run(v@, j as int),
{
    let len: usize = v.len();
    let mut k: usize = j;
    while k < len
        invariant
            len == v@.len(),
            j <= k <= len,
            digit_run(v@, j as int) == (k - j) + digit_run(v@, k as int),
        decreases len - k,
    {
        let code: u32 = v[k] as u32;
        if code < 48 || code > 57 {
            return k - j;
        }
        k = k + 1;
    }
    k - j
}

fn cluster_tail_at(v: &Vec<char>, j: usize) -> (n: usize)
    requires
        j <= v@.len(),
    ensures
        n == cluster_tail(v@, j as int),
{
    let len: usize = v.len();
    let mut k: usize = j;
    while k < len
        invariant
            len == v@.len(),
            j <= k <= len,
            cluster_tail(v@, j as int) == (k - j) + cluster_tail(v@, k as int),
        decreases len - k,
    {
        if modifier(v[k]) {
            k = k + 1;
        } else if k + 1 < len && (v[k] as u32) == 0x200D && pictograph(v[k + 1]) {
            k = k + 2;
        } else {
            return k - j;
        }
    }
    k - j
}

fn emoji_end_at(v: &Vec<char>, i: usize) -> (e: usize)
    requires
        i < v@.len(),
    ensures
        e == emoji_end(v@, i as int),
        i < e <= v@.len(),
{
    let len: usize = v.len();
    let start: usize = if i + 1 < len && regional(v[i]) && regional(v[i + 1]) {
        i + 2
    } else {
        i + 1
    };
    proof {
        lemma_cluster_tail_within(v@, start as int);
    }
    start + cluster_tail_at(v, start)
}

fn custom_at_exec(v: &Vec<char>, i: usize) -> (r: Option<(usize, u64, bool)>)
    requires
        i < v@.len(),
    ensures
        r is Some <==> custom_at(v@, i as int) is Some,
        r matches Some((e, id, animated)) ==> custom_at(v@, i as int) == Some((e as int, id, animated)),
{
    let ghost s = v@;
    let len: usize = v.len();
    if v[i] != '<' {
        return None;
    }
    let animated: bool = i + 1 < len && v[i + 1] == 'a';
    let p: usize = if animated {
        i + 2
    } else {
        i + 1
    };
    if p >= len || v[p] != ':' {
        return None;
    }
    let nm: usize = name_run_at(v, p + 1);
    proof {
        lemma_name_run_within(s, p + 1);
    }
    if nm == 0 {
        return None;
    }
    let q: usize = p + 1 + nm;
    if q >= len || v[q] != ':' {
        return None;
    }
    let d: usize = digit_run_at(v, q + 1);
    proof {
        lemma_digit_run_within(s, q + 1);
    }
    if d == 0 {
        return None;
    }
    let e: usize = q + 1 + d;
    if e >= len || v[e] != '>' {
        return None;
    }
    let ghost digits = s.subrange(q + 1, e as int);
    assert forall|k: int| 0 <= k < digits.len() implies is_digit(#[trigger] digits[k]) by {
        assert(digits[k] == s[q + 1 + k]);
    }
    assert(custom_at(s, i as int) is Some <==> digits_value(digits) <= u64::MAX);
    assert(digits_value(digits) <= u64::MAX ==> custom_at(s, i as int) == Some(
        ((e + 1) as int, digits_value(digits) as u64, animated),
    ));
    let mut acc: u128 = 0;
    let mut k: usize = q + 1;
    while k < e
        invariant
            s == v@,
            custom_at(s, i as int) is Some <==> digits_value(digits) <= u64::MAX,
            digits_value(digits) <= u64::MAX ==> custom_at(s, i as int) == Some(
                ((e + 1) as int, digits_value(digits) as u64, animated),
            ),
            q + 1 <= k <= e,
            e < v@.len(),
            digits == s.subrange(q + 1, e as int),
            forall|j: int| 0 <= j < digits.len() ==> is_digit(#[trigger] digits[j]),
            acc == digits_value(digits.take(k - (q + 1))),
            acc <= u64::MAX,
        decreases e - k,
    {
        let code: u32 = v[k] as u32;
        assert(digits[k - (q + 1)] == v@[k as int]);
        assert(digits.take(k - (q + 1) + 1).drop_last() == digits.take(k - (q + 1)));
        assert(digits.take(k - (q + 1) + 1).last() == v@[k as int]);
        acc = acc * 10 + ((code - 48) as u128);
        assert(acc == digits_value(digits.take(k - (q + 1) + 1)));
        if acc > 0xFFFF_FFFF_FFFF_FFFF {
            proof {
                lemma_prefix_value(digits, k - (q + 1) + 1);
            }
            return None;
        }
        k = k + 1;
    }
    assert(digits.take(e - (q + 1)) == digits);
    Some((e + 1, acc as u64, animated))
}

proof fn lemma_views_prepend(x: Piece, rest: Seq<Piece>)
    ensures
        piece_views(seq![x] + rest) == seq![x.view_piece()] + piece_views(rest),
{
    assert(piece_views(seq![x] + rest) =~= seq![x.view_piece()] + piece_views(rest));
}

fn prepend(x: Piece, rest: Vec<Piece>) -> (r: Vec<Piece>)
    ensures
        piece_views(r@) == seq![x.view_piece()] + piece_views(rest@),
{
    let mut rest = rest;
    let ghost old_rest = rest@;
    rest.insert(0, x);
    assert(rest@ =~= seq![x] + old_rest);
    proof {
        lemma_views_prepend(x, old_rest);
    }
    rest
}

fn pieces_at(v: &Vec<char>, i: usize) -> (r: Vec<Piece>)
    requires
        i <= v@.len(),
    ensures
        piece_views(r@) == pieces_from(v@, i as int),
    decreases v@.len() - i,
{
    let len: usize = v.len();
    if i >= len {
        let r: Vec<Piece> = Vec::new();
        assert(piece_views(r@) =~= seq![]);
        return r;
    }
    match custom_at_exec(v, i) {
        Some((e, id, animated)) => {
            let rest = pieces_at(v, e);
            return prepend(Piece::Custom { id, animated }, rest);
        },
        None => {},
    }
    if pictograph(v[i]) {
        let e: usize = emoji_end_at(v, i);
        let rest = pieces_at(v, e);
        let text = crate::text::string_of(v, i, e);
        return prepend(Piece::Unicode(text), rest);
    }
    let c: char = v[i];
    let mut rest = pieces_at(v, i + 1);
    let ghost rest_views = piece_views(rest@);
    if rest.len() > 0 {
        let first_text: Option<String> = match &rest[0] {
            Piece::Text(t) => Some(t.clone()),
            _ => None,
        };
        match first_text {
            Some(t) => {
                let mut joined = String::new();
                push_char(&mut joined, c);
                joined.append(t.as_str());
                assert(rest@[0].view_piece() == rest_views[0]);
                rest.set(0, Piece::Text(joined));
                assert(piece_views(rest@) =~= rest_views.update(0, PieceView::Text(seq![c] + rest_views[0]->Text_0)));
                return rest;
            },
            None => {
                assert(rest@[0].view_piece() == rest_views[0]);
            },
        }
    }
    let mut t = String::new();
    push_char(&mut t, c);
    prepend(Piece::Text(t), rest)
}

/// The pieces of a line: runs of text, custom server emoji and Unicode
/// emoji, in order.
pub fn line_pieces(line: &str) -> (r: Vec<Piece>)
    ensures
        piece_views(r@) == pieces(line@),
{
    let v = chars_of(line);
    pieces_at(&v, 0)
}

// ---------------------------------------------------------------- pictures

/// Where the picture of custom emoji `id` is fetched from.
pub open spec fn custom_emoji_url(id: u64) -> Seq<char> {
    "https://cdn.discordapp.com/emojis/"@ + decimal_nat(id as nat) + ".png"@
}

/// The lower-case hex digit for a value below sixteen.
pub open spec fn hex_digit(d: nat) -> char {
    if d < 10 {
        ((48 + d) as u8) as char
    } else {
        ((87 + d) as u8) as char
    }
}

/// The lower-case hex digits of `n`, most significant first, no leading
/// zero.
pub open spec fn hex_nat(n: nat) -> Seq<char>
    decreases n,
{
    if n < 16 {
        seq![hex_digit(n)]
    } else {
        hex_nat(n / 16).push(hex_digit(n % 16))
    }
}

/// `s` without its emoji variation selectors.
pub open spec fn without_selectors(s: Seq<char>) -> Seq<char>
    decreases s.len(),
{
    if s.len() == 0 {
        seq![]
    } else if s.last() as u32 == 0xFE0F {
        without_selectors(s.drop_last())
    } else {
        without_selectors(s.drop_last()).push(s.last())
    }
}

/// The code points of `s` in hex, joined by `-`.
pub open spec fn hex_joined(s: Seq<char>) -> Seq<char>
    decreases s.len(),
{
    if s.len() == 0 {
        seq![]
    } else if s.len() == 1 {
        hex_nat((s[0] as u32) as nat)
    } else {
        hex_joined(s.drop_last()) + seq!['-'] + hex_nat((s.last() as u32) as nat)
    }
}

/// The Twemoji file name of a Unicode emoji: its code points in hex joined
/// by `-`, the variation selectors left out unless a joiner glues it.
pub open spec fn twemoji_name(e: Seq<char>) -> Seq<char> {
    if e.contains('\u{200D}') {
        hex_joined(e)
    } else {
        hex_joined(without_selectors(e))
    }
}

/// Where the picture of a Unicode emoji is fetched from.
pub open spec fn twemoji_url(e: Seq<char>) -> Seq<char> {
    "https://cdn.jsdelivr.net/gh/twitter/twemoji@14.0.2/assets/72x72/"@ + twemoji_name(e) + ".png"@
}

/// Where the picture of a piece is fetched from: none for text.
pub open spec fn piece_url(p: PieceView) -> Option<Seq<char>> {
    match p {
        PieceView::Text(_) => None,
        PieceView::Custom { id, .. } => Some(custom_emoji_url(id)),
        PieceView::Unicode(e) => Some(twemoji_url(e)),
    }
}

/// The value of a string of lower-case hex digits.
pub open spec fn hex_value(s: Seq<char>) -> nat
    decreases s.len(),
{
    if s.len() == 0 {
        0
    } else {
        let c = s.last() as u32;
        let d: nat = if c <= 57 {
            (c - 48) as nat
        } else {
            (c - 87) as nat
        };
        hex_value(s.drop_last()) * 16 + d
    }
}

/// The hex digits written for a code point read back as that code point:
/// a Twemoji file name names the emoji's characters, and a single
/// character other than the variation selector is named by its own code
/// point alone.
pub proof fn lemma_hex_names_the_code_point(n: nat, c: char)
    ensures
        hex_value(hex_nat(n)) == n,
        hex_nat(n).len() > 0,
        (c as u32) != 0xFE0F ==> twemoji_name(seq![c]) == hex_nat((c as u32) as nat),
    decreases n,
{
    let h = hex_nat(n);
    let d = n % 16;
    let v = hex_digit(d) as u32;
    assert(v == if d < 10 { 48 + d } else { 87 + d });
    let dv: nat = if v <= 57 { (v - 48) as nat } else { (v - 87) as nat };
    assert(dv == d);
    if n < 16 {
        assert(h.drop_last() =~= Seq::<char>::empty());
        assert(h.last() == hex_digit(n));
        assert(hex_value(h) == hex_value(h.drop_last()) * 16 + dv);
        assert(hex_value(Seq::<char>::empty()) == 0);
    } else {
        lemma_hex_names_the_code_point(n / 16, c);
        assert(h.drop_last() == hex_nat(n / 16));
        assert(h.last() == hex_digit(d));
        assert(hex_value(h) == hex_value(h.drop_last()) * 16 + dv);
    }
    let one = seq![c];
    if (c as u32) != 0xFE0F {
        if one.contains('\u{200D}') {
            assert(one[0] == '\u{200D}');
        } else {
            assert(one.drop_last() =~= Seq::<char>::empty());
            assert(one.last() == c);
            assert(without_selectors(Seq::<char>::empty()) == Seq::<char>::empty());
            assert(without_selectors(one) == without_selectors(one.drop_last()).push(c));
            assert(without_selectors(one) =~= one);
        }
    }
}

fn hex_char(d: u32) -> (c: char)
    requires
        d < 16,
    ensures
        c == hex_digit(d as nat),
{
    if d < 10 {
        ((48 + d) as u8) as char
    } else {
        ((87 + d) as u8) as char
    }
}

fn push_hex(out: &mut String, n: u32)
    ensures
        final(out)@ == old(out)@ + hex_nat(n as nat),
    decreases n,
{
    if n >= 16 {
        push_hex(out, n / 16);
    }
    push_char(out, hex_char(n % 16));
}

fn twemoji_file(e: &str) -> (name: String)
    ensures
        name@ == twemoji_name(e@),
{
    let v = chars_of(e);
    let n: usize = v.len();
    let glued: bool = crate::text::contains_char(e, '\u{200D}');
    let mut kept: Vec<char> = Vec::new();
    for i in 0..n
        invariant
            n == v@.len(),
            v@ == e@,
            glued ==> kept@ == v@.take(i as int),
            !glued ==> kept@ == without_selectors(v@.take(i as int)),
    {
        assert(v@.take(i + 1).drop_last() == v@.take(i as int));
        if glued || (v[i] as u32) != 0xFE0F {
            kept.push(v[i]);
        }
    }
    assert(v@.take(n as int) == v@);
    let m: usize = kept.len();
    let mut name = String::new();
    for j in 0..m
        invariant
            m == kept@.len(),
            name@ == hex_joined(kept@.take(j as int)),
    {
        assert(kept@.take(j + 1).drop_last() == kept@.take(j as int));
        let ghost before = name@;
        let c: char = kept[j];
        assert(kept@.take(j + 1).last() == c);
        assert(kept@.take(j + 1)[0] == kept@[0]);
        if j > 0 {
            push_char(&mut name, '-');
        }
        push_hex(&mut name, c as u32);
        if j == 0 {
            assert(name@ =~= hex_joined(kept@.take(j + 1)));
        } else {
            assert(name@ =~= before + seq!['-'] + hex_nat((c as u32) as nat));
        }
    }
    assert(kept@.take(m as int) == kept@);
    name
}

/// Where the picture of `piece` is fetched from; `None` for text.
pub fn emoji_url(piece: &Piece) -> (r: Option<String>)
    ensures
        match r {
            Some(u) => piece_url(piece.view_piece()) == Some(u@),
            None => piece_url(piece.view_piece()) is None,
        },
{
    match piece {
        Piece::Text(_) => None,
        Piece::Custom { id, .. } => {
            let mut url = String::from_str("https://cdn.discordapp.com/emojis/");
            push_u128(&mut url, *id as u128);
            url.append(".png");
            Some(url)
        },
        Piece::Unicode(e) => {
            let mut url = String::from_str(
                "https://cdn.jsdelivr.net/gh/twitter/twemoji@14.0.2/assets/72x72/",
            );
            let name = twemoji_file(e.as_str());
            url.append(name.as_str());
            url.append(".png");
            Some(url)
        },
    }
}

} // verus!
