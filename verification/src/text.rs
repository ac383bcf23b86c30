//! Characters, words and lines: whitespace as `char::is_whitespace` sees it,
//! word splitting, trimming, and the greedy line wrapper of the quote card.

use vstd::prelude::*;
use crate::decimal::push_char;

verus! {

broadcast use vstd::string::group_string_axioms;

/// The Unicode `White_Space` characters, which `char::is_whitespace` accepts.
pub open spec fn is_whitespace(c: char) -> bool {
    let n: u32 = c as u32;
    ||| 9 <= n <= 13
    ||| n == 0x20
    ||| n == 0x85
    ||| n == 0xA0
    ||| n == 0x1680
    ||| 0x2000 <= n <= 0x200A
    ||| n == 0x2028
    ||| n == 0x2029
    ||| n == 0x202F
    ||| n == 0x205F
    ||| n == 0x3000
}

/// Whether `c` is whitespace.
pub fn is_whitespace_char(c: char) -> (b: bool)
    ensures
        b == is_whitespace(c),
{
    let n: u32 = c as u32;
    (9 <= n && n <= 13) || n == 0x20 || n == 0x85 || n == 0xA0 || n == 0x1680 || (0x2000 <= n
        && n <= 0x200A) || n == 0x2028 || n == 0x2029 || n == 0x202F || n == 0x205F || n == 0x3000
}

/// The characters of a string, in order.
pub fn chars_of(s: &str) -> (v: Vec<char>)
    ensures
        v@ == s@,
{
    let mut v: Vec<char> = Vec::new();
    for c in it: s.chars()
        invariant
            v@ == it.seq().take(it.index() as int),
    {
        v.push(c);
    }
    v
}

/// Whether `c` occurs in `s`.
pub fn contains_char(s: &str, c: char) -> (b: bool)
    ensures
        b == s@.contains(c),
{
    let v = chars_of(s);
    let n: usize = v.len();
    for i in 0..n
        invariant
            n == v@.len(),
            v@ == s@,
            forall|j: int| 0 <= j < i ==> v@[j] != c,
    {
        if v[i] == c {
            assert(s@[i as int] == c);
            return true;
        }
    }
    false
}

/// The string made of `v[lo..hi]`.
pub fn string_of(v: &Vec<char>, lo: usize, hi: usize) -> (s: String)
    requires
        lo <= hi <= v@.len(),
    ensures
        s@ == v@.subrange(lo as int, hi as int),
{
    let mut s = String::new();
    for i in lo..hi
        invariant
            lo <= hi <= v@.len(),
            s@ == v@.subrange(lo as int, i as int),
    {
        push_char(&mut s, v[i]);
        assert(v@.subrange(lo as int, i + 1) == v@.subrange(lo as int, i as int).push(v@[i as int]));
    }
    s
}

/// The views of a sequence of strings.
pub open spec fn views(v: Seq<String>) -> Seq<Seq<char>> {
    v.map_values(|x: String| x@)
}

// ---------------------------------------------------------------- words

/// Scanning `s` from the left: the words completed so far and the word
/// under way.
pub open spec fn split_state(s: Seq<char>) -> (Seq<Seq<char>>, Seq<char>)
    decreases s.len(),
{
    if s.len() == 0 {
        (seq![], seq![])
    } else {
        let (done, cur) = split_state(s.drop_last());
        let c = s.last();
        if is_whitespace(c) {
            if cur.len() > 0 {
                (done.push(cur), seq![])
            } else {
                (done, cur)
            }
        } else {
            (done, cur.push(c))
        }
    }
}

/// The maximal runs of non-whitespace characters of `s`, in order: what
/// `str::split_whitespace` yields.
pub open spec fn words(s: Seq<char>) -> Seq<Seq<char>> {
    let (done, cur) = split_state(s);
    if cur.len() > 0 {
        done.push(cur)
    } else {
        done
    }
}

/// A word: non-empty, without whitespace.
pub open spec fn is_word(w: Seq<char>) -> bool {
    w.len() > 0 && forall|i: int| 0 <= i < w.len() ==> !is_whitespace(#[trigger] w[i])
}

proof fn lemma_split_state_words(s: Seq<char>)
    ensures
        forall|i: int| 0 <= i < split_state(s).0.len() ==> is_word(#[trigger] split_state(s).0[i]),
        forall|i: int|
            0 <= i < split_state(s).1.len() ==> !is_whitespace(#[trigger] split_state(s).1[i]),
    decreases s.len(),
{
    if s.len() > 0 {
        lemma_split_state_words(s.drop_last());
        let (done, cur) = split_state(s.drop_last());
        let c = s.last();
        if is_whitespace(c) {
            if cur.len() > 0 {
                assert(is_word(cur));
                assert forall|i: int| 0 <= i < done.push(cur).len() implies is_word(
                    #[trigger] done.push(cur)[i],
                ) by {
                    if i < done.len() {
                        assert(done.push(cur)[i] == done[i]);
                    }
                }
            }
        } else {
            assert forall|i: int| 0 <= i < cur.push(c).len() implies !is_whitespace(
                #[trigger] cur.push(c)[i],
            ) by {
                if i < cur.len() {
                    assert(cur.push(c)[i] == cur[i]);
                }
            }
        }
    }
}

/// Every piece that word splitting yields is a word.
pub proof fn lemma_words_are_words(s: Seq<char>)
    ensures
        forall|i: int| 0 <= i < words(s).len() ==> is_word(#[trigger] words(s)[i]),
{
    lemma_split_state_words(s);
}

/// The words of `text`, as `str::split_whitespace` yields them.
pub fn split_words(text: &str) -> (ws: Vec<String>)
    ensures
        views(ws@) == words(text@),
{
    let v = chars_of(text);
    let n: usize = v.len();
    let mut done: Vec<String> = Vec::new();
    let mut start: usize = 0;
    let mut i: usize = 0;
    while i < n
        invariant
            n == v@.len(),
            v@ == text@,
            start <= i <= n,
            views(done@) == split_state(v@.take(i as int)).0,
            v@.subrange(start as int, i as int) == split_state(v@.take(i as int)).1,
        decreases n - i,
    {
        assert(v@.take(i + 1).drop_last() == v@.take(i as int));
        assert(v@.take(i + 1).last() == v@[i as int]);
        if is_whitespace_char(v[i]) {
            if start < i {
                let w = string_of(&v, start, i);
                let ghost before = done@;
                done.push(w);
                assert(views(done@) =~= views(before).push(w@));
            }
            start = i + 1;
        } else {
            assert(v@.subrange(start as int, i + 1) == v@.subrange(start as int, i as int).push(
                v@[i as int],
            ));
        }
        i = i + 1;
    }
    assert(v@.take(n as int) == v@);
    if start < n {
        let w = string_of(&v, start, n);
        let ghost before = done@;
        done.push(w);
        assert(views(done@) =~= views(before).push(w@));
    }
    done
}

// ---------------------------------------------------------------- trimming

/// `s` without its leading whitespace.
pub open spec fn trim_start(s: Seq<char>) -> Seq<char>
    decreases s.len(),
{
    if s.len() > 0 && is_whitespace(s[0]) {
        trim_start(s.drop_first())
    } else {
        s
    }
}

/// `s` without its trailing whitespace.
pub open spec fn trim_end(s: Seq<char>) -> Seq<char>
    decreases s.len(),
{
    if s.len() > 0 && is_whitespace(s.last()) {
        trim_end(s.drop_last())
    } else {
        s
    }
}

/// `s` without leading and trailing whitespace: what `str::trim` gives.
pub open spec fn trim(s: Seq<char>) -> Seq<char> {
    trim_end(trim_start(s))
}

/// `text` without leading and trailing whitespace.
pub fn trimmed(text: &str) -> (r: String)
    ensures
        r@ == trim(text@),
{
    let v = chars_of(text);
    let n: usize = v.len();
    let mut i: usize = 0;
    assert(v@.subrange(0, n as int) == v@);
    while i < n && is_whitespace_char(v[i])
        invariant
            n == v@.len(),
            v@ == text@,
            i <= n,
            trim_start(v@) == trim_start(v@.subrange(i as int, n as int)),
        decreases n - i,
    {
        assert(v@.subrange(i as int, n as int).drop_first() == v@.subrange(i + 1, n as int));
        i = i + 1;
    }
    assert(trim_start(v@) == v@.subrange(i as int, n as int));
    let mut j: usize = n;
    while j > i && is_whitespace_char(v[j - 1])
        invariant
            n == v@.len(),
            i <= j <= n,
            trim_end(v@.subrange(i as int, n as int)) == trim_end(v@.subrange(i as int, j as int)),
        decreases j,
    {
        assert(v@.subrange(i as int, j as int).drop_last() == v@.subrange(i as int, j - 1));
        j = j - 1;
    }
    string_of(&v, i, j)
}

// ---------------------------------------------------------------- wrapping

/// The words of `ws` joined by single spaces.
pub open spec fn join_spaced(ws: Seq<Seq<char>>) -> Seq<char>
    decreases ws.len(),
{
    if ws.len() == 0 {
        seq![]
    } else if ws.len() == 1 {
        ws[0]
    } else {
        join_spaced(ws.drop_last()) + seq![' '] + ws.last()
    }
}

/// The line that trying `word` on `current` would give.
pub open spec fn candidate_line(current: Seq<char>, word: Seq<char>) -> Seq<char> {
    if current.len() == 0 {
        word
    } else {
        current + seq![' '] + word
    }
}

/// One step of greedy wrapping: the closed lines and the open line after
/// `word` was tried and judged too wide or not. A too-wide candidate closes
/// the open line and starts a new one with `word`, unless the open line is
/// empty.
pub open spec fn wrap_step(
    lines: Seq<Seq<char>>,
    current: Seq<char>,
    word: Seq<char>,
    too_wide: bool,
) -> (Seq<Seq<char>>, Seq<char>) {
    if too_wide && current.len() > 0 {
        (lines.push(current), word)
    } else {
        (lines, candidate_line(current, word))
    }
}

/// The lines at the end: the closed ones, and the open one unless it is empty.
pub open spec fn finished_lines(lines: Seq<Seq<char>>, current: Seq<char>) -> Seq<Seq<char>> {
    if current.len() > 0 {
        lines.push(current)
    } else {
        lines
    }
}

/// Wrapping `words`, the `i`-th judged too wide or not by `too_wide[i]`.
pub open spec fn wrap_all(words: Seq<Seq<char>>, too_wide: Seq<bool>) -> (
    Seq<Seq<char>>,
    Seq<char>,
)
    decreases words.len(),
{
    if words.len() == 0 {
        (seq![], seq![])
    } else {
        let (lines, current) = wrap_all(words.drop_last(), too_wide.drop_last());
        wrap_step(lines, current, words.last(), too_wide.last())
    }
}

/// The lines that wrapping `words` gives under the judgements `too_wide`.
pub open spec fn wrapped(words: Seq<Seq<char>>, too_wide: Seq<bool>) -> Seq<Seq<char>> {
    let (lines, current) = wrap_all(words, too_wide);
    finished_lines(lines, current)
}

/// Wrapping loses, adds and reorders no word: the lines joined by spaces are
/// the words joined by spaces, and no line is empty.
pub proof fn lemma_wrap_keeps_words(words: Seq<Seq<char>>, too_wide: Seq<bool>)
    requires
        too_wide.len() == words.len(),
        forall|i: int| 0 <= i < words.len() ==> is_word(#[trigger] words[i]),
    ensures
        join_spaced(wrapped(words, too_wide)) == join_spaced(words),
        forall|i: int|
            0 <= i < wrapped(words, too_wide).len() ==> #[trigger] wrapped(words, too_wide)[i].len()
                > 0,
        forall|i: int|
            0 <= i < wrapped(words, too_wide).len() ==> well_spaced(
                #[trigger] wrapped(words, too_wide)[i],
            ),
    decreases words.len(),
{
    lemma_wrap_all_shape(words, too_wide);
    lemma_wrap_spacing(words, too_wide);
    let (lines, current) = wrap_all(words, too_wide);
    assert forall|i: int|
        0 <= i < wrapped(words, too_wide).len() implies well_spaced(
        #[trigger] wrapped(words, too_wide)[i],
    ) by {
        if i < lines.len() {
            assert(wrapped(words, too_wide)[i] == lines[i]);
        }
    }
}

/// A line without a space at either end and without two spaces in a row.
pub open spec fn well_spaced(line: Seq<char>) -> bool {
    &&& line.len() > 0
    &&& line[0] != ' '
    &&& line.last() != ' '
    &&& forall|i: int| 0 <= i < line.len() - 1 ==> !(#[trigger] line[i] == ' ' && line[i + 1] == ' ')
}

proof fn lemma_word_spaced(w: Seq<char>)
    requires
        is_word(w),
    ensures
        well_spaced(w),
{
    assert(!is_whitespace(w[0]));
    assert(!is_whitespace(w[w.len() - 1]));
    assert forall|i: int| 0 <= i < w.len() - 1 implies !(#[trigger] w[i] == ' ' && w[i + 1] == ' ') by {
        assert(!is_whitespace(w[i]));
    }
}

proof fn lemma_join_spaced_line(a: Seq<char>, w: Seq<char>)
    requires
        well_spaced(a),
        is_word(w),
    ensures
        well_spaced(a + seq![' '] + w),
{
    let c = a + seq![' '] + w;
    let n = a.len();
    assert(c[0] == a[0]);
    assert(c[c.len() - 1] == w[w.len() - 1]);
    assert(!is_whitespace(w[w.len() - 1]));
    assert forall|i: int| 0 <= i < c.len() - 1 implies !(#[trigger] c[i] == ' ' && c[i + 1] == ' ') by {
        if i < n - 1 {
            assert(c[i] == a[i] && c[i + 1] == a[i + 1]);
        } else if i == n - 1 {
            assert(c[i] == a[n - 1]);
        } else if i == n {
            assert(c[i + 1] == w[0]);
            assert(!is_whitespace(w[0]));
        } else {
            assert(c[i] == w[i - n - 1]);
            assert(!is_whitespace(w[i - n - 1]));
        }
    }
}

proof fn lemma_wrap_spacing(words: Seq<Seq<char>>, too_wide: Seq<bool>)
    requires
        too_wide.len() == words.len(),
        forall|i: int| 0 <= i < words.len() ==> is_word(#[trigger] words[i]),
    ensures
        ({
            let (lines, current) = wrap_all(words, too_wide);
            &&& forall|i: int| 0 <= i < lines.len() ==> well_spaced(#[trigger] lines[i])
            &&& current.len() > 0 ==> well_spaced(current)
        }),
    decreases words.len(),
{
    if words.len() > 0 {
        let ws = words.drop_last();
        let fs = too_wide.drop_last();
        assert forall|i: int| 0 <= i < ws.len() implies is_word(#[trigger] ws[i]) by {
            assert(ws[i] == words[i]);
        }
        lemma_wrap_spacing(ws, fs);
        let (lines, current) = wrap_all(ws, fs);
        let w = words.last();
        assert(is_word(words[words.len() - 1]));
        lemma_word_spaced(w);
        if too_wide.last() && current.len() > 0 {
            let l2 = lines.push(current);
            assert forall|i: int| 0 <= i < l2.len() implies well_spaced(#[trigger] l2[i]) by {
                if i < lines.len() {
                    assert(l2[i] == lines[i]);
                }
            }
        } else if current.len() > 0 {
            lemma_join_spaced_line(current, w);
        }
    }
}

proof fn lemma_wrap_all_shape(words: Seq<Seq<char>>, too_wide: Seq<bool>)
    requires
        too_wide.len() == words.len(),
        forall|i: int| 0 <= i < words.len() ==> is_word(#[trigger] words[i]),
    ensures
        ({
            let (lines, current) = wrap_all(words, too_wide);
            &&& current.len() == 0 <==> words.len() == 0
            &&& current.len() == 0 ==> lines.len() == 0
            &&& forall|i: int| 0 <= i < lines.len() ==> #[trigger] lines[i].len() > 0
            &&& join_spaced(finished_lines(lines, current)) == join_spaced(words)
        }),
    decreases words.len(),
{
    if words.len() > 0 {
        let ws = words.drop_last();
        let fs = too_wide.drop_last();
        assert forall|i: int| 0 <= i < ws.len() implies is_word(#[trigger] ws[i]) by {
            assert(ws[i] == words[i]);
        }
        lemma_wrap_all_shape(ws, fs);
        let (lines, current) = wrap_all(ws, fs);
        let w = words.last();
        assert(is_word(words[words.len() - 1]));
        assert(words == ws.push(w));
        if too_wide.last() && current.len() > 0 {
            let l2 = lines.push(current);
            assert(l2.push(w).drop_last() == l2);
            assert(l2.drop_last() == lines);
            assert forall|i: int| 0 <= i < l2.len() implies #[trigger] l2[i].len() > 0 by {
                if i < lines.len() {
                    assert(l2[i] == lines[i]);
                }
            }
        } else if current.len() == 0 {
            assert(ws.len() == 0);
            assert(finished_lines(lines, w) == seq![w]);
        } else {
            let c2 = current + seq![' '] + w;
            if lines.len() > 0 {
                assert(lines.push(c2).drop_last() == lines);
                assert(lines.push(current).drop_last() == lines);
                assert(join_spaced(lines.push(c2)) == join_spaced(lines) + seq![' '] + c2);
                assert(join_spaced(lines.push(current)) == join_spaced(lines) + seq![' ']
                    + current);
            }
            assert(join_spaced(finished_lines(lines, c2)) == join_spaced(finished_lines(
                lines,
                current,
            )) + seq![' '] + w);
        }
    }
}

/// How many words after the first were judged too wide.
pub open spec fn breaks(too_wide: Seq<bool>) -> nat
    decreases too_wide.len(),
{
    if too_wide.len() <= 1 {
        0
    } else {
        breaks(too_wide.drop_last()) + if too_wide.last() {
            1nat
        } else {
            0nat
        }
    }
}

/// Wrapping is greedy: the lines break exactly where a word after the
/// first was judged too wide for its line, and nowhere else.
pub proof fn lemma_wrap_breaks_where_judged(words: Seq<Seq<char>>, too_wide: Seq<bool>)
    requires
        words.len() > 0,
        too_wide.len() == words.len(),
        forall|i: int| 0 <= i < words.len() ==> is_word(#[trigger] words[i]),
    ensures
        wrapped(words, too_wide).len() == breaks(too_wide) + 1,
    decreases words.len(),
{
    lemma_wrap_count(words, too_wide);
}

proof fn lemma_wrap_count(words: Seq<Seq<char>>, too_wide: Seq<bool>)
    requires
        words.len() > 0,
        too_wide.len() == words.len(),
        forall|i: int| 0 <= i < words.len() ==> is_word(#[trigger] words[i]),
    ensures
        wrap_all(words, too_wide).0.len() == breaks(too_wide),
        wrap_all(words, too_wide).1.len() > 0,
    decreases words.len(),
{
    let w = words.last();
    assert(is_word(words[words.len() - 1]));
    if words.len() > 1 {
        let ws = words.drop_last();
        let fs = too_wide.drop_last();
        assert forall|i: int| 0 <= i < ws.len() implies is_word(#[trigger] ws[i]) by {
            assert(ws[i] == words[i]);
        }
        lemma_wrap_count(ws, fs);
        assert(breaks(too_wide) == breaks(fs) + if too_wide.last() {
            1nat
        } else {
            0nat
        });
    } else {
        let ws = words.drop_last();
        let fs = too_wide.drop_last();
        assert(ws.len() == 0);
        assert(wrap_all(ws, fs) == (Seq::<Seq<char>>::empty(), Seq::<char>::empty()));
        assert(breaks(too_wide) == 0);
    }
}

/// Whether every judgement was made by `fits`: the `k`-th word was judged
/// too wide exactly when the candidate line it gave does not fit.
pub open spec fn judged_by(
    words: Seq<Seq<char>>,
    too_wide: Seq<bool>,
    fits: spec_fn(Seq<char>) -> bool,
) -> bool {
    forall|k: int|
        0 <= k < words.len() ==> #[trigger] too_wide[k] == !fits(
            candidate_line(wrap_all(words.take(k), too_wide.take(k)).1, words[k]),
        )
}

/// When the judgements come from a width test `fits`, every line of more
/// than one word passes it: only a line holding a single word can be too
/// wide.
pub proof fn lemma_wrap_lines_fit(
    words: Seq<Seq<char>>,
    too_wide: Seq<bool>,
    fits: spec_fn(Seq<char>) -> bool,
)
    requires
        too_wide.len() == words.len(),
        forall|i: int| 0 <= i < words.len() ==> is_word(#[trigger] words[i]),
        judged_by(words, too_wide, fits),
    ensures
        forall|i: int|
            0 <= i < wrapped(words, too_wide).len() && (#[trigger] wrapped(words, too_wide)[i]).contains(' ')
                ==> fits(wrapped(words, too_wide)[i]),
{
    lemma_wrap_fit_state(words, too_wide, fits);
    let (lines, current) = wrap_all(words, too_wide);
    assert forall|i: int|
        0 <= i < wrapped(words, too_wide).len() && (#[trigger] wrapped(words, too_wide)[i]).contains(' ')
        implies fits(wrapped(words, too_wide)[i]) by {
        if i < lines.len() {
            assert(wrapped(words, too_wide)[i] == lines[i]);
        }
    }
}

proof fn lemma_word_has_no_space(w: Seq<char>)
    requires
        is_word(w),
    ensures
        !w.contains(' '),
{
    if w.contains(' ') {
        let k = choose|k: int| 0 <= k < w.len() && w[k] == ' ';
        assert(!is_whitespace(w[k]));
    }
}

proof fn lemma_wrap_fit_state(
    words: Seq<Seq<char>>,
    too_wide: Seq<bool>,
    fits: spec_fn(Seq<char>) -> bool,
)
    requires
        too_wide.len() == words.len(),
        forall|i: int| 0 <= i < words.len() ==> is_word(#[trigger] words[i]),
        judged_by(words, too_wide, fits),
    ensures
        forall|i: int|
            0 <= i < wrap_all(words, too_wide).0.len() && (#[trigger] wrap_all(
                words,
                too_wide,
            ).0[i]).contains(' ') ==> fits(wrap_all(words, too_wide).0[i]),
        wrap_all(words, too_wide).1.contains(' ') ==> fits(wrap_all(words, too_wide).1),
    decreases words.len(),
{
    if words.len() > 0 {
        let n = words.len() - 1;
        let ws = words.drop_last();
        let fs = too_wide.drop_last();
        assert forall|i: int| 0 <= i < ws.len() implies is_word(#[trigger] ws[i]) by {
            assert(ws[i] == words[i]);
        }
        assert forall|k: int| 0 <= k < ws.len() implies #[trigger] fs[k] == !fits(
            candidate_line(wrap_all(ws.take(k), fs.take(k)).1, ws[k]),
        ) by {
            assert(ws.take(k) == words.take(k));
            assert(fs.take(k) == too_wide.take(k));
            assert(fs[k] == too_wide[k]);
        }
        lemma_wrap_fit_state(ws, fs, fits);
        let (lines, current) = wrap_all(ws, fs);
        let w = words.last();
        assert(is_word(words[n]));
        lemma_word_has_no_space(w);
        assert(words.take(n) == ws);
        assert(too_wide.take(n) == fs);
        assert(too_wide[n] == !fits(candidate_line(current, w)));
        if too_wide.last() && current.len() > 0 {
            let l2 = lines.push(current);
            assert forall|i: int| 0 <= i < l2.len() && (#[trigger] l2[i]).contains(' ') implies fits(
                l2[i],
            ) by {
                if i < lines.len() {
                    assert(l2[i] == lines[i]);
                }
            }
        }
    }
}

/// A greedy line wrapper. The caller measures each candidate line (the
/// measuring font is not the library's) and tells the wrapper whether it is
/// too wide.
pub struct LineWrapper {
    lines: Vec<String>,
    current: String,
}

impl LineWrapper {
    /// The closed lines, as character sequences.
    pub closed spec fn closed_lines(&self) -> Seq<Seq<char>> {
        views(self.lines@)
    }

    /// The open line.
    pub closed spec fn open_line(&self) -> Seq<char> {
        self.current@
    }

    /// A wrapper with no line yet.
    pub fn new() -> (w: Self)
        ensures
            w.closed_lines() == Seq::<Seq<char>>::empty(),
            w.open_line() == Seq::<char>::empty(),
    {
        let w = LineWrapper { lines: Vec::new(), current: String::new() };
        assert(views(w.lines@) =~= Seq::<Seq<char>>::empty());
        w
    }

    /// The line that `word` would give if it went on the open line.
    pub fn candidate(&self, word: &str) -> (line: String)
        ensures
            line@ == candidate_line(self.open_line(), word@),
    {
        if self.current.as_str().is_empty() {
            String::from_str(word)
        } else {
            let mut line = self.current.clone();
            push_char(&mut line, ' ');
            line.append(word);
            line
        }
    }

    /// Places `word`, its candidate line judged `too_wide` or not.
    pub fn push_word(&mut self, word: &str, too_wide: bool)
        ensures
            (final(self).closed_lines(), final(self).open_line()) == wrap_step(
                old(self).closed_lines(),
                old(self).open_line(),
                word@,
                too_wide,
            ),
    {
        if too_wide && !self.current.as_str().is_empty() {
            let ghost before = self.lines@;
            let mut line = String::from_str(word);
            std::mem::swap(&mut line, &mut self.current);
            self.lines.push(line);
            assert(views(self.lines@) =~= views(before).push(line@));
        } else {
            let line = self.candidate(word);
            self.current = line;
        }
    }

    /// All lines: the closed ones, then the open one unless it is empty.
    pub fn finish(self) -> (lines: Vec<String>)
        ensures
            views(lines@) == finished_lines(self.closed_lines(), self.open_line()),
    {
        let mut lines = self.lines;
        if !self.current.as_str().is_empty() {
            let ghost before = lines@;
            lines.push(self.current);
            assert(views(lines@) =~= views(before).push(self.current@));
        }
        lines
    }
}

} // verus!
