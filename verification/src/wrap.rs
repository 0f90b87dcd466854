use vstd::prelude::*;
use crate::chars::{char_utf8_width, is_white_space, push_char, utf8_len, utf8_width, white_space};

verus! {

/// Most lines that a wrapped message keeps.
pub const MAX_LINES: usize = 4;

/// The views of a sequence of strings.
pub open spec fn views(v: Seq<String>) -> Seq<Seq<char>> {
    v.map_values(|s: String| s@)
}

/// Splitting state after reading `s`: the finished words and the word being read.
pub open spec fn scan_words(s: Seq<char>) -> (Seq<Seq<char>>, Seq<char>)
    decreases s.len(),
{
    if s.len() == 0 {
        (seq![], seq![])
    } else {
        let (done, word) = scan_words(s.drop_last());
        let c = s.last();
        if is_white_space(c) {
            if word.len() > 0 {
                (done.push(word), seq![])
            } else {
                (done, word)
            }
        } else {
            (done, word.push(c))
        }
    }
}

/// The words of `s`: the maximal runs of characters without white space,
/// in order (what `str::split_whitespace` yields).
pub open spec fn words(s: Seq<char>) -> Seq<Seq<char>> {
    let (done, word) = scan_words(s);
    if word.len() > 0 {
        done.push(word)
    } else {
        done
    }
}

/// One step of greedy wrapping: `word` starts the first line, joins the
/// current line after a space when the result is at most `max` bytes long,
/// or else closes the current line and starts the next one.
pub open spec fn wrap_step(state: (Seq<Seq<char>>, Seq<char>), word: Seq<char>, max: nat) -> (
    Seq<Seq<char>>,
    Seq<char>,
) {
    let (lines, current) = state;
    if current.len() == 0 {
        (lines, word)
    } else if utf8_len(current) + 1 + utf8_len(word) <= max {
        (lines, current + seq![' '] + word)
    } else {
        (lines.push(current), word)
    }
}

/// Greedy wrapping of `ws`: the closed lines and the line still open.
pub open spec fn wrap_fold(ws: Seq<Seq<char>>, max: nat) -> (Seq<Seq<char>>, Seq<char>)
    decreases ws.len(),
{
    if ws.len() == 0 {
        (seq![], seq![])
    } else {
        wrap_step(wrap_fold(ws.drop_last(), max), ws.last(), max)
    }
}

/// The closed lines followed by the open line, when there is one.
pub open spec fn close_lines(state: (Seq<Seq<char>>, Seq<char>)) -> Seq<Seq<char>> {
    if state.1.len() > 0 {
        state.0.push(state.1)
    } else {
        state.0
    }
}

/// All the lines of `text` wrapped greedily at `max` bytes.
pub open spec fn wrapped_lines(text: Seq<char>, max: nat) -> Seq<Seq<char>> {
    close_lines(wrap_fold(words(text), max))
}

/// The lines that are kept: the first [`MAX_LINES`] of [`wrapped_lines`].
pub open spec fn wrap_result(text: Seq<char>, max: nat) -> Seq<Seq<char>> {
    let all = wrapped_lines(text, max);
    if all.len() <= MAX_LINES {
        all
    } else {
        all.take(MAX_LINES as int)
    }
}

/// `n`, or `cap` when `n` is larger.
pub open spec fn capped(n: nat, cap: int) -> int {
    if n < cap {
        n as int
    } else {
        cap
    }
}

/// Two texts joined by a space take one byte more than the two texts.
proof fn lemma_joined_len(a: Seq<char>, b: Seq<char>)
    ensures
        utf8_len(a + seq![' '] + b) == utf8_len(a) + 1 + utf8_len(b),
{
    crate::chars::lemma_utf8_len_concat(a, seq![' ']);
    crate::chars::lemma_utf8_len_concat(a + seq![' '], b);
    assert(seq![' '].drop_last() =~= Seq::<char>::empty());
    assert(seq![' '].last() == ' ');
    assert(utf8_len(seq![' ']) == utf8_len(Seq::<char>::empty()) + char_utf8_width(' '));
}

fn place_word(
    lines: &mut Vec<String>,
    current: &mut String,
    current_bytes: &mut u128,
    word: String,
    word_bytes: u128,
    max_chars: usize,
)
    requires
        *old(current_bytes) == capped(utf8_len(old(current)@), max_chars + 1),
        word_bytes == capped(utf8_len(word@), max_chars + 1),
    ensures
        (views(final(lines)@), final(current)@) == wrap_step(
            (views(old(lines)@), old(current)@),
            word@,
            max_chars as nat,
        ),
        *final(current_bytes) == capped(utf8_len(final(current)@), max_chars + 1),
{
    let ghost old_lines = lines@;
    if current.as_str().is_empty() {
        *current = word;
        *current_bytes = word_bytes;
    } else if *current_bytes + 1 + word_bytes <= max_chars as u128 {
        let ghost before = current@;
        push_char(current, ' ');
        current.append(word.as_str());
        proof {
            lemma_joined_len(before, word@);
            assert(before.push(' ') =~= before + seq![' ']);
        }
        *current_bytes = *current_bytes + 1 + word_bytes;
    } else {
        let mut closed = word;
        std::mem::swap(current, &mut closed);
        lines.push(closed);
        *current_bytes = word_bytes;
        proof {
            assert(views(lines@) =~= views(old_lines).push(closed@));
        }
    }
}

/// Splits `text` into words and fills lines greedily: a word joins the
/// current line after a space while the line stays within `max_chars`
/// bytes, a longer word stands alone on its line; at most [`MAX_LINES`]
/// lines are kept.
pub fn wrap_text(text: &str, max_chars: usize) -> (lines: Vec<String>)
    ensures
        views(lines@) == wrap_result(text@, max_chars as nat),
        lines@.len() <= MAX_LINES,
{
    let cap: u128 = max_chars as u128 + 1;
    let mut lines: Vec<String> = Vec::new();
    let mut current = String::new();
    let mut current_bytes: u128 = 0;
    let mut word = String::new();
    let mut word_bytes: u128 = 0;
    for c in it: text.chars()
        invariant
            it.seq() == text@,
            cap == max_chars + 1,
            word@ == scan_words(it.seq().take(it.index())).1,
            (views(lines@), current@) == wrap_fold(
                scan_words(it.seq().take(it.index())).0,
                max_chars as nat,
            ),
            current_bytes == capped(utf8_len(current@), cap as int),
            word_bytes == capped(utf8_len(word@), cap as int),
    {
        let ghost prefix = it.seq().take(it.index());
        proof {
            assert(it.seq().take(it.index() + 1).drop_last() =~= prefix);
        }
        if white_space(c) {
            if !word.as_str().is_empty() {
                let w = word;
                word = String::new();
                place_word(&mut lines, &mut current, &mut current_bytes, w, word_bytes, max_chars);
                word_bytes = 0;
                proof {
                    assert(scan_words(prefix).0.push(w@).drop_last() =~= scan_words(prefix).0);
                }
            }
        } else {
            let ghost before = word@;
            push_char(&mut word, c);
            let wc: u8 = utf8_width(c);
            let grown: u128 = word_bytes + wc as u128;
            word_bytes = if grown < cap { grown } else { cap };
            proof {
                assert(word@.drop_last() =~= before);
            }
        }
    }
    let ghost all = text@;
    assert(all.take(all.len() as int) =~= all);
    if !word.as_str().is_empty() {
        let w = word;
        place_word(&mut lines, &mut current, &mut current_bytes, w, word_bytes, max_chars);
        proof {
            assert(scan_words(all).0.push(w@).drop_last() =~= scan_words(all).0);
        }
    }
    if !current.as_str().is_empty() {
        let ghost before = lines@;
        lines.push(current);
        proof {
            assert(views(lines@) =~= views(before).push(current@));
        }
    }
    let ghost full = lines@;
    lines.truncate(MAX_LINES);
    proof {
        if full.len() > MAX_LINES {
            assert(views(lines@) =~= views(full).take(MAX_LINES as int));
        }
    }
    lines
}


/// `w` holds no white space.
pub open spec fn no_white_space(w: Seq<char>) -> bool {
    forall|i: int| 0 <= i < w.len() ==> !is_white_space(#[trigger] w[i])
}

/// `w` is a word: non-empty and free of white space.
pub open spec fn is_word(w: Seq<char>) -> bool {
    w.len() > 0 && no_white_space(w)
}

/// The words of `ws` joined by single spaces.
pub open spec fn join_spaced(ws: Seq<Seq<char>>) -> Seq<char>
    decreases ws.len(),
{
    if ws.len() == 0 {
        seq![]
    } else if ws.len() == 1 {
        ws[0]
    } else {
        join_spaced(ws.drop_last()) + seq![' '] + ws.last()
    }
}

/// A line is shown whole: it is non-empty, and it fits in `max` bytes
/// or it is a single word too long to share a line.
pub open spec fn line_ok(l: Seq<char>, max: nat) -> bool {
    l.len() > 0 && (utf8_len(l) <= max || no_white_space(l))
}

proof fn lemma_scan_words(s: Seq<char>)
    ensures
        forall|i: int| 0 <= i < scan_words(s).0.len() ==> is_word(#[trigger] scan_words(s).0[i]),
        no_white_space(scan_words(s).1),
    decreases s.len(),
{
    if s.len() > 0 {
        lemma_scan_words(s.drop_last());
        let (done, word) = scan_words(s.drop_last());
        let c = s.last();
        if !is_white_space(c) {
            let w2 = word.push(c);
            assert forall|i: int| 0 <= i < w2.len() implies !is_white_space(#[trigger] w2[i]) by {
                if i < word.len() {
                    assert(w2[i] == word[i]);
                }
            }
        }
    }
}

/// Every word of a text is non-empty and free of white space.
pub proof fn lemma_words_are_words(s: Seq<char>)
    ensures
        forall|i: int| 0 <= i < words(s).len() ==> is_word(#[trigger] words(s)[i]),
{
    lemma_scan_words(s);
}

proof fn lemma_join_push(ls: Seq<Seq<char>>, a: Seq<char>)
    ensures
        join_spaced(ls.push(a)) == if ls.len() == 0 {
            a
        } else {
            join_spaced(ls) + seq![' '] + a
        },
{
    assert(ls.push(a).drop_last() =~= ls);
}

proof fn lemma_wrap_fold(ws: Seq<Seq<char>>, max: nat)
    requires
        forall|i: int| 0 <= i < ws.len() ==> is_word(#[trigger] ws[i]),
    ensures
        (wrap_fold(ws, max).1.len() == 0) == (ws.len() == 0),
        wrap_fold(ws, max).1.len() == 0 ==> wrap_fold(ws, max).0.len() == 0,
        join_spaced(close_lines(wrap_fold(ws, max))) == join_spaced(ws),
        forall|i: int|
            0 <= i < close_lines(wrap_fold(ws, max)).len() ==> line_ok(
                #[trigger] close_lines(wrap_fold(ws, max))[i],
                max,
            ),
    decreases ws.len(),
{
    if ws.len() > 0 {
        let prev = ws.drop_last();
        assert forall|i: int| 0 <= i < prev.len() implies is_word(#[trigger] prev[i]) by {
            assert(prev[i] == ws[i]);
        }
        lemma_wrap_fold(prev, max);
        let (lines, current) = wrap_fold(prev, max);
        let w = ws.last();
        assert(is_word(ws[ws.len() - 1]));
        let next = wrap_fold(ws, max);
        if current.len() == 0 {
            assert(prev.len() == 0);
            assert(close_lines(next) =~= seq![w]);
            lemma_join_push(lines, w);
            lemma_join_push(prev, w);
            assert(ws =~= prev.push(w));
        } else if utf8_len(current) + 1 + utf8_len(w) <= max {
            let joined = current + seq![' '] + w;
            lemma_join_push(lines, current);
            lemma_join_push(lines, joined);
            lemma_join_push(prev, w);
            assert(ws =~= prev.push(w));
            assert(join_spaced(close_lines(next)) =~= join_spaced(ws));
            lemma_joined_len(current, w);
            assert(line_ok(joined, max));
            let old_all = lines.push(current);
            let new_all = lines.push(joined);
            assert forall|i: int| 0 <= i < new_all.len() implies line_ok(#[trigger] new_all[i], max) by {
                if i < lines.len() {
                    assert(new_all[i] == old_all[i]);
                }
            }
        } else {
            let old_all = lines.push(current);
            lemma_join_push(old_all, w);
            lemma_join_push(prev, w);
            assert(ws =~= prev.push(w));
            let new_all = old_all.push(w);
            assert forall|i: int| 0 <= i < new_all.len() implies line_ok(#[trigger] new_all[i], max) by {
                if i < old_all.len() {
                    assert(new_all[i] == old_all[i]);
                }
            }
        }
    }
}

/// Wrapping loses, adds and reorders nothing: the lines joined by single
/// spaces are the words of the text joined by single spaces.
pub proof fn lemma_wrapped_lines_keep_words(text: Seq<char>, max: nat)
    ensures
        join_spaced(wrapped_lines(text, max)) == join_spaced(words(text)),
{
    lemma_words_are_words(text);
    lemma_wrap_fold(words(text), max);
}

/// Every wrapped line is non-empty, and it fits in `max` bytes unless it is
/// a single word longer than that.
pub proof fn lemma_wrapped_lines_fit(text: Seq<char>, max: nat)
    ensures
        forall|i: int|
            0 <= i < wrapped_lines(text, max).len() ==> line_ok(
                #[trigger] wrapped_lines(text, max)[i],
                max,
            ),
{
    lemma_words_are_words(text);
    lemma_wrap_fold(words(text), max);
}


proof fn lemma_scan_words_congruent(x: Seq<char>, y: Seq<char>, b: Seq<char>)
    requires
        scan_words(x) == scan_words(y),
    ensures
        scan_words(x + b) == scan_words(y + b),
    decreases b.len(),
{
    if b.len() == 0 {
        assert(x + b =~= x);
        assert(y + b =~= y);
    } else {
        lemma_scan_words_congruent(x, y, b.drop_last());
        assert((x + b).drop_last() =~= x + b.drop_last());
        assert((y + b).drop_last() =~= y + b.drop_last());
        assert((x + b).last() == b.last());
        assert((y + b).last() == b.last());
    }
}

/// Any white space character separates words as a space does, and a run
/// of white space separates them as a single one does; so the words, and
/// the wrapped lines, stay the same.
pub proof fn lemma_white_space_runs(a: Seq<char>, c1: char, c2: char, b: Seq<char>, max: nat)
    requires
        is_white_space(c1),
        is_white_space(c2),
    ensures
        words(a + seq![c1] + b) == words(a + seq![' '] + b),
        words(a + seq![c1, c2] + b) == words(a + seq![c1] + b),
        wrap_result(a + seq![c1] + b, max) == wrap_result(a + seq![' '] + b, max),
        wrap_result(a + seq![c1, c2] + b, max) == wrap_result(a + seq![c1] + b, max),
{
    let one = a + seq![c1];
    let space = a + seq![' '];
    let two = a + seq![c1, c2];
    assert(one.drop_last() =~= a);
    assert(space.drop_last() =~= a);
    assert(two.drop_last() =~= one);
    assert(is_white_space(' '));
    assert(scan_words(one) == scan_words(space));
    assert(scan_words(two) == scan_words(one));
    lemma_scan_words_congruent(one, space, b);
    lemma_scan_words_congruent(two, one, b);
    assert(a + seq![c1] + b =~= one + b);
    assert(a + seq![' '] + b =~= space + b);
    assert(a + seq![c1, c2] + b =~= two + b);
}

/// The characters of `l` before its first space.
pub open spec fn first_word(l: Seq<char>) -> Seq<char>
    decreases l.len(),
{
    if l.len() == 0 || l[0] == ' ' {
        seq![]
    } else {
        seq![l[0]] + first_word(l.drop_first())
    }
}

/// Line `i` could not take the first word of line `i + 1`.
pub open spec fn closed_when_full(ls: Seq<Seq<char>>, i: int, max: nat) -> bool {
    utf8_len(ls[i]) + 1 + utf8_len(first_word(ls[i + 1])) > max
}

proof fn lemma_first_word_extend(a: Seq<char>, b: Seq<char>)
    ensures
        first_word(a + seq![' '] + b) == first_word(a),
    decreases a.len(),
{
    if a.len() > 0 && a[0] != ' ' {
        lemma_first_word_extend(a.drop_first(), b);
        assert((a + seq![' '] + b).drop_first() =~= a.drop_first() + seq![' '] + b);
    } else if a.len() == 0 {
        assert((a + seq![' '] + b)[0] == ' ');
    } else {
        assert((a + seq![' '] + b)[0] == a[0]);
    }
}

proof fn lemma_first_word_of_word(w: Seq<char>)
    requires
        no_white_space(w),
    ensures
        first_word(w) == w,
    decreases w.len(),
{
    if w.len() > 0 {
        assert(!is_white_space(w[0]));
        let r = w.drop_first();
        assert(no_white_space(r)) by {
            assert forall|i: int| 0 <= i < r.len() implies !is_white_space(#[trigger] r[i]) by {
                assert(r[i] == w[i + 1]);
            }
        }
        lemma_first_word_of_word(r);
        assert(seq![w[0]] + r =~= w);
    }
}

proof fn lemma_wrap_fold_greedy(ws: Seq<Seq<char>>, max: nat)
    requires
        forall|i: int| 0 <= i < ws.len() ==> is_word(#[trigger] ws[i]),
    ensures
        forall|i: int|
            0 <= i < close_lines(wrap_fold(ws, max)).len() - 1 ==> #[trigger] closed_when_full(
                close_lines(wrap_fold(ws, max)),
                i,
                max,
            ),
    decreases ws.len(),
{
    if ws.len() > 0 {
        let prev = ws.drop_last();
        assert forall|i: int| 0 <= i < prev.len() implies is_word(#[trigger] prev[i]) by {
            assert(prev[i] == ws[i]);
        }
        lemma_wrap_fold_greedy(prev, max);
        lemma_wrap_fold(prev, max);
        let (lines, current) = wrap_fold(prev, max);
        let w = ws.last();
        assert(is_word(ws[ws.len() - 1]));
        let old_all = close_lines(wrap_fold(prev, max));
        let new_all = close_lines(wrap_fold(ws, max));
        if current.len() == 0 {
            assert(new_all.len() == 1);
        } else if utf8_len(current) + 1 + utf8_len(w) <= max {
            lemma_first_word_extend(current, w);
            assert forall|i: int| 0 <= i < new_all.len() - 1 implies #[trigger] closed_when_full(
                new_all,
                i,
                max,
            ) by {
                assert(closed_when_full(old_all, i, max));
                assert(new_all[i] == old_all[i]);
            }
        } else {
            lemma_first_word_of_word(w);
            assert forall|i: int| 0 <= i < new_all.len() - 1 implies #[trigger] closed_when_full(
                new_all,
                i,
                max,
            ) by {
                if i < old_all.len() - 1 {
                    assert(closed_when_full(old_all, i, max));
                    assert(new_all[i] == old_all[i]);
                    assert(new_all[i + 1] == old_all[i + 1]);
                }
            }
        }
    }
}

/// Wrapping is greedy: a line ends only where the first word of the next
/// line would not fit on it after a space.
pub proof fn lemma_wrapped_lines_greedy(text: Seq<char>, max: nat)
    ensures
        forall|i: int|
            0 <= i < wrapped_lines(text, max).len() - 1 ==> #[trigger] closed_when_full(
                wrapped_lines(text, max),
                i,
                max,
            ),
{
    lemma_words_are_words(text);
    lemma_wrap_fold_greedy(words(text), max);
}


/// The lines kept are the first ones, in order: all of them when there are
/// at most four, else the first four.
pub proof fn lemma_wrap_result_first_lines(t: Seq<char>, max: nat)
    ensures
        wrap_result(t, max).len() == if wrapped_lines(t, max).len() <= 4 {
            wrapped_lines(t, max).len()
        } else {
            4
        },
        forall|i: int|
            0 <= i < wrap_result(t, max).len() ==> #[trigger] wrap_result(t, max)[i]
                == wrapped_lines(t, max)[i],
{
}

/// `t` is written with single spaces: its only white space is the space,
/// it neither starts nor ends with one, and no two spaces follow each other.
pub open spec fn single_spaced(t: Seq<char>) -> bool {
    &&& forall|i: int| 0 <= i < t.len() && is_white_space(#[trigger] t[i]) ==> t[i] == ' '
    &&& t.len() > 0 ==> t[0] != ' ' && t[t.len() - 1] != ' '
    &&& forall|i: int| 0 <= i < t.len() - 1 ==> !(#[trigger] t[i] == ' ' && t[i + 1] == ' ')
}

/// A start of a text written with single spaces (it may end with a space).
spec fn spaced_prefix(p: Seq<char>) -> bool {
    &&& forall|i: int| 0 <= i < p.len() && is_white_space(#[trigger] p[i]) ==> p[i] == ' '
    &&& p.len() > 0 ==> p[0] != ' '
    &&& forall|i: int| 0 <= i < p.len() - 1 ==> !(#[trigger] p[i] == ' ' && p[i + 1] == ' ')
}

proof fn lemma_scan_spaced_prefix(p: Seq<char>)
    requires
        spaced_prefix(p),
    ensures
        p.len() == 0 ==> scan_words(p).0.len() == 0 && scan_words(p).1.len() == 0,
        p.len() > 0 && p.last() == ' ' ==> {
            &&& scan_words(p).1.len() == 0
            &&& scan_words(p).0.len() > 0
            &&& p == join_spaced(scan_words(p).0) + seq![' ']
        },
        p.len() > 0 && p.last() != ' ' ==> {
            &&& scan_words(p).1.len() > 0
            &&& p == if scan_words(p).0.len() == 0 {
                scan_words(p).1
            } else {
                join_spaced(scan_words(p).0) + seq![' '] + scan_words(p).1
            }
        },
    decreases p.len(),
{
    if p.len() > 0 {
        let q = p.drop_last();
        let c = p.last();
        assert(spaced_prefix(q)) by {
            assert forall|i: int| 0 <= i < q.len() && is_white_space(#[trigger] q[i]) implies q[i] == ' ' by {
                assert(q[i] == p[i]);
            }
            assert forall|i: int| 0 <= i < q.len() - 1 implies !(#[trigger] q[i] == ' ' && q[i + 1] == ' ') by {
                assert(q[i] == p[i]);
                assert(q[i + 1] == p[i + 1]);
            }
            if q.len() > 0 {
                assert(q[0] == p[0]);
            }
        }
        lemma_scan_spaced_prefix(q);
        let (done, w) = scan_words(q);
        assert(c == p[p.len() - 1]);
        if c == ' ' {
            assert(q.len() > 0);
            assert(q.last() == p[p.len() - 2]);
            assert(q.last() != ' ');
            assert(is_white_space(' '));
            lemma_join_push(done, w);
            assert(p =~= q + seq![' ']);
        } else {
            assert(!is_white_space(c));
            assert(p =~= q.push(c));
            if q.len() == 0 {
                assert(p =~= w.push(c));
            } else if q.last() == ' ' {
                assert(p =~= join_spaced(done) + seq![' '] + w.push(c));
            } else if done.len() == 0 {
                assert(p =~= w.push(c));
            } else {
                assert(p =~= join_spaced(done) + seq![' '] + w.push(c));
            }
        }
    }
}

/// Words break at white space only: the words of a text written with
/// single spaces, joined again by single spaces, give the text back, so
/// every other character stays, in order, inside its word.
pub proof fn lemma_words_of_single_spaced(t: Seq<char>)
    requires
        single_spaced(t),
    ensures
        join_spaced(words(t)) == t,
{
    lemma_scan_spaced_prefix(t);
    let (done, w) = scan_words(t);
    if t.len() > 0 {
        lemma_join_push(done, w);
    }
}

proof fn lemma_scan_no_white_space(t: Seq<char>)
    requires
        no_white_space(t),
    ensures
        scan_words(t) == (Seq::<Seq<char>>::empty(), t),
    decreases t.len(),
{
    if t.len() > 0 {
        let q = t.drop_last();
        assert(!is_white_space(t[t.len() - 1]));
        assert(no_white_space(q)) by {
            assert forall|i: int| 0 <= i < q.len() implies !is_white_space(#[trigger] q[i]) by {
                assert(q[i] == t[i]);
            }
        }
        lemma_scan_no_white_space(q);
        assert(q.push(t.last()) =~= t);
    } else {
        assert(t =~= Seq::<char>::empty());
    }
}

/// A text without white space is a single word: the text itself.
pub proof fn lemma_word_without_white_space(t: Seq<char>)
    requires
        t.len() > 0,
        no_white_space(t),
    ensures
        words(t) == seq![t],
{
    lemma_scan_no_white_space(t);
    assert(Seq::<Seq<char>>::empty().push(t) =~= seq![t]);
}

proof fn lemma_join_nonempty(ws: Seq<Seq<char>>)
    requires
        ws.len() > 0,
        forall|i: int| 0 <= i < ws.len() ==> is_word(#[trigger] ws[i]),
    ensures
        join_spaced(ws).len() > 0,
{
    assert(is_word(ws[ws.len() - 1]));
}

proof fn lemma_fold_fits(ws: Seq<Seq<char>>, max: nat)
    requires
        ws.len() > 0,
        forall|i: int| 0 <= i < ws.len() ==> is_word(#[trigger] ws[i]),
        utf8_len(join_spaced(ws)) <= max,
    ensures
        wrap_fold(ws, max) == (Seq::<Seq<char>>::empty(), join_spaced(ws)),
    decreases ws.len(),
{
    let prev = ws.drop_last();
    let w = ws.last();
    assert(is_word(ws[ws.len() - 1]));
    if prev.len() == 0 {
        assert(wrap_fold(prev, max) == (Seq::<Seq<char>>::empty(), Seq::<char>::empty()));
    } else {
        assert forall|i: int| 0 <= i < prev.len() implies is_word(#[trigger] prev[i]) by {
            assert(prev[i] == ws[i]);
        }
        lemma_joined_len(join_spaced(prev), w);
        lemma_fold_fits(prev, max);
        lemma_join_nonempty(prev);
    }
}

/// A text written with single spaces that fits in `max` bytes is shown as
/// it is, on one line.
pub proof fn lemma_fitting_text_one_line(t: Seq<char>, max: nat)
    requires
        t.len() > 0,
        single_spaced(t),
        utf8_len(t) <= max,
    ensures
        wrapped_lines(t, max) == seq![t],
        wrap_result(t, max) == seq![t],
{
    lemma_words_of_single_spaced(t);
    lemma_words_are_words(t);
    assert(words(t).len() > 0);
    lemma_fold_fits(words(t), max);
}

} // verus!
