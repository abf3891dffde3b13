//! Position strings: a board, the side to move, the pieces in hand and a move
//! counter, optionally followed by the word `moves` and a move history.

use crate::text::{chars_of, push_chars, string_of, texts};
use vstd::prelude::*;

verus! {

/// The text that separates a position from the move history behind it.
pub open spec fn history_mark() -> Seq<char> {
    seq![' ', 'm', 'o', 'v', 'e', 's']
}

/// `pat` stands in `s` at index `i`.
pub open spec fn occurs_at(s: Seq<char>, pat: Seq<char>, i: int) -> bool {
    0 <= i && i + pat.len() <= s.len() && s.subrange(i, i + pat.len()) == pat
}

/// `pat` stands in `s` at index `i` and nowhere before.
pub open spec fn first_occurrence(s: Seq<char>, pat: Seq<char>, i: int) -> bool {
    occurs_at(s, pat, i) && forall|j: int| 0 <= j < i ==> !occurs_at(s, pat, j)
}

/// `pat` stands nowhere in `s`.
pub open spec fn absent(s: Seq<char>, pat: Seq<char>) -> bool {
    forall|j: int| !occurs_at(s, pat, j)
}

/// The position without its move history: what stands before the first
/// history mark, or all of `s` where there is no mark.
pub open spec fn position_only(s: Seq<char>) -> Seq<char> {
    if exists|i: int| first_occurrence(s, history_mark(), i) {
        s.take(choose|i: int| first_occurrence(s, history_mark(), i))
    } else {
        s
    }
}

/// There is at most one first occurrence.
pub proof fn lemma_first_occurrence_unique(s: Seq<char>, pat: Seq<char>, i: int, j: int)
    requires
        first_occurrence(s, pat, i),
        first_occurrence(s, pat, j),
    ensures
        i == j,
{
}

/// Where `pat` stands in `s` at all, it stands somewhere first.
pub proof fn lemma_first_occurrence_exists(s: Seq<char>, pat: Seq<char>, i: int)
    requires
        occurs_at(s, pat, i),
    ensures
        exists|k: int| first_occurrence(s, pat, k),
    decreases i,
{
    if forall|j: int| 0 <= j < i ==> !occurs_at(s, pat, j) {
        assert(first_occurrence(s, pat, i));
    } else {
        let j = choose|j: int| 0 <= j < i && occurs_at(s, pat, j);
        lemma_first_occurrence_exists(s, pat, j);
    }
}

/// Where the mark first stands at `i`, the position is what stands before `i`.
pub proof fn lemma_position_only_at(s: Seq<char>, i: int)
    requires
        first_occurrence(s, history_mark(), i),
    ensures
        position_only(s) == s.take(i),
{
    let k = choose|k: int| first_occurrence(s, history_mark(), k);
    lemma_first_occurrence_unique(s, history_mark(), i, k);
}

/// Where there is no mark, the position is the whole string.
pub proof fn lemma_position_only_absent(s: Seq<char>)
    requires
        absent(s, history_mark()),
    ensures
        position_only(s) == s,
{
}

/// The index at which `pat` first stands in `s[..]`, if it stands there at all.
pub fn find(s: &Vec<char>, pat: &Vec<char>) -> (r: Option<usize>)
    ensures
        match r {
            Some(i) => first_occurrence(s@, pat@, i as int),
            None => absent(s@, pat@),
        },
{
    let n: usize = s.len();
    let m: usize = pat.len();
    if m > n {
        return None;
    }
    let mut i: usize = 0;
    while i <= n - m
        invariant
            n == s.len(),
            m == pat.len(),
            m <= n,
            i <= n - m + 1,
            forall|j: int| 0 <= j < i ==> !occurs_at(s@, pat@, j),
        decreases n - m + 1 - i,
    {
        let mut k: usize = 0;
        while k < m && s[i + k] == pat[k]
            invariant
                n == s.len(),
                m == pat.len(),
                i + m <= n,
                k <= m,
                forall|l: int| 0 <= l < k ==> s@[i + l] == pat@[l],
            decreases m - k,
        {
            k += 1;
        }
        if k == m {
            assert(s@.subrange(i as int, i + m) =~= pat@);
            return Some(i);
        }
        assert(!occurs_at(s@, pat@, i as int)) by {
            if occurs_at(s@, pat@, i as int) {
                assert(s@.subrange(i as int, i + m)[k as int] == pat@[k as int]);
            }
        }
        i += 1;
    }
    None
}

/// A character that separates the fields of a position string: a character
/// with the Unicode property `White_Space`.
pub open spec fn is_space(c: char) -> bool {
    ||| '\u{9}' <= c <= '\u{d}'
    ||| c == ' '
    ||| c == '\u{85}'
    ||| c == '\u{a0}'
    ||| c == '\u{1680}'
    ||| '\u{2000}' <= c <= '\u{200a}'
    ||| c == '\u{2028}'
    ||| c == '\u{2029}'
    ||| c == '\u{202f}'
    ||| c == '\u{205f}'
    ||| c == '\u{3000}'
}

/// No character of `t` separates fields.
pub open spec fn space_free(t: Seq<char>) -> bool {
    forall|i: int| 0 <= i < t.len() ==> !is_space(#[trigger] t[i])
}

/// The length of the longest prefix of `s` that holds no separator.
pub open spec fn token_len(s: Seq<char>) -> nat
    decreases s.len(),
{
    if s.len() == 0 || is_space(s[0]) {
        0
    } else {
        1 + token_len(s.skip(1))
    }
}

/// The fields of `s`: its maximal runs of characters that are no separators,
/// from left to right.
pub open spec fn fields(s: Seq<char>) -> Seq<Seq<char>>
    decreases s.len(),
    via fields_decreases
{
    if s.len() == 0 {
        Seq::empty()
    } else if is_space(s[0]) {
        fields(s.skip(1))
    } else {
        seq![s.take(token_len(s) as int)] + fields(s.skip(token_len(s) as int))
    }
}

#[via_fn]
proof fn fields_decreases(s: Seq<char>) {
    lemma_token_len_bound(s);
}

/// A token is no longer than the string it starts.
pub proof fn lemma_token_len_bound(s: Seq<char>)
    ensures
        token_len(s) <= s.len(),
        s.len() > 0 && !is_space(s[0]) ==> token_len(s) >= 1,
    decreases s.len(),
{
    if s.len() > 0 && !is_space(s[0]) {
        lemma_token_len_bound(s.skip(1));
    }
}

/// Where the first `k` characters of `s` are no separators and a separator or
/// the end of `s` follows them, the first token of `s` has length `k`.
pub proof fn lemma_token_len_is(s: Seq<char>, k: int)
    requires
        0 <= k <= s.len(),
        forall|l: int| 0 <= l < k ==> !is_space(#[trigger] s[l]),
        k == s.len() || is_space(s[k]),
    ensures
        token_len(s) == k,
    decreases k,
{
    if k > 0 {
        let r = s.skip(1);
        assert forall|l: int| 0 <= l < k - 1 implies !is_space(#[trigger] r[l]) by {
            assert(r[l] == s[l + 1]);
        }
        lemma_token_len_is(r, k - 1);
    }
}

/// Tells whether `c` separates fields.
pub fn is_separator(c: char) -> (b: bool)
    ensures
        b == is_space(c),
{
    ('\u{9}' <= c && c <= '\u{d}') || c == ' ' || c == '\u{85}' || c == '\u{a0}' || c
        == '\u{1680}' || ('\u{2000}' <= c && c <= '\u{200a}') || c == '\u{2028}' || c
        == '\u{2029}' || c == '\u{202f}' || c == '\u{205f}' || c == '\u{3000}'
}

/// Splits `s` into its fields.
pub fn split_fields(s: &Vec<char>) -> (out: Vec<Vec<char>>)
    ensures
        out.len() == fields(s@).len(),
        forall|i: int| 0 <= i < out.len() ==> (#[trigger] out[i])@ == fields(s@)[i],
{
    let n: usize = s.len();
    let mut out: Vec<Vec<char>> = Vec::new();
    let ghost mut done: Seq<Seq<char>> = Seq::empty();
    let mut i: usize = 0;
    assert(s@.skip(0) =~= s@);
    while i < n
        invariant
            n == s.len(),
            i <= n,
            out.len() == done.len(),
            forall|k: int| 0 <= k < out.len() ==> (#[trigger] out[k])@ == done[k],
            fields(s@) == done + fields(s@.skip(i as int)),
        decreases n - i,
    {
        let ghost rest = s@.skip(i as int);
        assert(rest[0] == s@[i as int]);
        if is_separator(s[i]) {
            assert(rest.skip(1) =~= s@.skip(i + 1));
            i += 1;
        } else {
            let mut token: Vec<char> = Vec::new();
            let mut j: usize = i;
            while j < n && !is_separator(s[j])
                invariant
                    n == s.len(),
                    i <= j <= n,
                    token@ == s@.subrange(i as int, j as int),
                    forall|l: int| i <= l < j ==> !is_space(#[trigger] s@[l]),
                decreases n - j,
            {
                token.push(s[j]);
                assert(token@ =~= s@.subrange(i as int, j + 1));
                j += 1;
            }
            proof {
                assert forall|l: int| 0 <= l < j - i implies !is_space(#[trigger] rest[l]) by {
                    assert(rest[l] == s@[i + l]);
                }
                if j < n {
                    assert(rest[j - i] == s@[j as int]);
                }
                lemma_token_len_is(rest, j - i);
                assert(rest.take(j - i) =~= token@);
                assert(rest.skip(j - i) =~= s@.skip(j as int));
                assert(done + (seq![token@] + fields(s@.skip(j as int))) =~= done.push(token@)
                    + fields(s@.skip(j as int)));
                done = done.push(token@);
            }
            out.push(token);
            i = j;
        }
    }
    assert(fields(s@.skip(n as int)) =~= Seq::<Seq<char>>::empty());
    assert(done + Seq::<Seq<char>>::empty() =~= done);
    out
}

/// Every field holds at least one character and no separator.
pub proof fn lemma_fields_are_tokens(s: Seq<char>, i: int)
    requires
        0 <= i < fields(s).len(),
    ensures
        fields(s)[i].len() > 0,
        space_free(fields(s)[i]),
    decreases s.len(),
{
    if s.len() == 0 {
    } else if is_space(s[0]) {
        lemma_fields_are_tokens(s.skip(1), i);
    } else {
        lemma_token_len_bound(s);
        let k = token_len(s) as int;
        if i == 0 {
            lemma_token_prefix_space_free(s);
        } else {
            lemma_fields_are_tokens(s.skip(k), i - 1);
        }
    }
}

/// The first token of `s` holds no separator.
pub proof fn lemma_token_prefix_space_free(s: Seq<char>)
    ensures
        space_free(s.take(token_len(s) as int)),
    decreases s.len(),
{
    lemma_token_len_bound(s);
    if s.len() > 0 && !is_space(s[0]) {
        let r = s.skip(1);
        lemma_token_prefix_space_free(r);
        lemma_token_len_bound(r);
        let t = s.take(token_len(s) as int);
        assert forall|i: int| 0 <= i < t.len() implies !is_space(#[trigger] t[i]) by {
            if i > 0 {
                assert(t[i] == r.take(token_len(r) as int)[i - 1]);
            }
        }
    }
}

/// A token alone is its own single field.
pub proof fn lemma_fields_single(t: Seq<char>)
    requires
        t.len() > 0,
        space_free(t),
    ensures
        fields(t) == seq![t],
{
    lemma_token_len_is(t, t.len() as int);
    assert(t.take(t.len() as int) =~= t);
    assert(fields(t.skip(t.len() as int)) =~= Seq::<Seq<char>>::empty());
    assert(seq![t] + Seq::<Seq<char>>::empty() =~= seq![t]);
}

/// A token, a blank and more text: the token is the first field, and the
/// fields of the text follow.
pub proof fn lemma_fields_cons(t: Seq<char>, rest: Seq<char>)
    requires
        t.len() > 0,
        space_free(t),
    ensures
        fields(t + seq![' '] + rest) == seq![t] + fields(rest),
{
    let s = t + seq![' '] + rest;
    let k = t.len() as int;
    assert forall|l: int| 0 <= l < k implies !is_space(#[trigger] s[l]) by {
        assert(s[l] == t[l]);
    }
    assert(s[k] == ' ');
    lemma_token_len_is(s, k);
    assert(s.take(k) =~= t);
    let tail = s.skip(k);
    assert(is_space(tail[0]));
    assert(tail.skip(1) =~= rest);
    assert(fields(tail) == fields(rest));
    assert(!is_space(s[0]));
}

/// The mirror image `mirrored` of a position with the attacker to move first:
/// its board and its hands, the side to move set to Black and the move counter
/// to 1. A string of fewer than four fields is no position and is left as it
/// is.
pub open spec fn normalized(mirrored: Seq<char>) -> Seq<char> {
    let parts = fields(mirrored);
    if parts.len() >= 4 {
        parts[0] + seq![' ', 'b', ' '] + parts[2] + seq![' ', '1']
    } else {
        mirrored
    }
}

/// In a normalized position Black is to move and the move counter is 1, while
/// board and hands are those of the mirror image.
pub proof fn lemma_normalized_fields(mirrored: Seq<char>)
    requires
        fields(mirrored).len() >= 4,
    ensures
        fields(normalized(mirrored)) == seq![
            fields(mirrored)[0],
            seq!['b'],
            fields(mirrored)[2],
            seq!['1'],
        ],
{
    let parts = fields(mirrored);
    lemma_fields_are_tokens(mirrored, 0);
    lemma_fields_are_tokens(mirrored, 2);
    let side = seq!['b'];
    let count = seq!['1'];
    let from_hands = parts[2] + seq![' '] + count;
    let from_side = side + seq![' '] + from_hands;
    assert(normalized(mirrored) =~= parts[0] + seq![' '] + from_side);
    lemma_fields_single(count);
    lemma_fields_cons(parts[2], count);
    lemma_fields_cons(side, from_hands);
    lemma_fields_cons(parts[0], from_side);
    assert(seq![parts[0]] + (seq![side] + (seq![parts[2]] + seq![count])) =~= seq![
        parts[0],
        side,
        parts[2],
        count,
    ]);
}

/// The side to move as it stands between the fields of a position: the
/// letter of the side with a blank on either side.
pub open spec fn side_mark(side: char) -> Seq<char> {
    seq![' ', side, ' ']
}

/// A normalized position says behind its board that Black is to move. It
/// says nowhere that White is, unless the hands of the mirror image are
/// written as the single letter `w`: then that letter stands between two
/// blanks.
pub proof fn lemma_normalized_side(mirrored: Seq<char>)
    requires
        fields(mirrored).len() >= 4,
    ensures
        occurs_at(normalized(mirrored), side_mark('b'), fields(mirrored)[0].len() as int),
        fields(mirrored)[2] != seq!['w'] <==> absent(normalized(mirrored), side_mark('w')),
{
    let board = fields(mirrored)[0];
    let hands = fields(mirrored)[2];
    let record = normalized(mirrored);
    let n = board.len() as int;
    let h = hands.len() as int;
    lemma_fields_are_tokens(mirrored, 0);
    lemma_fields_are_tokens(mirrored, 2);
    assert(record.len() == n + h + 5);
    assert forall|k: int| 0 <= k < n implies record[k] == board[k] by {}
    assert(record[n] == ' ' && record[n + 1] == 'b' && record[n + 2] == ' ');
    assert forall|k: int| 0 <= k < h implies record[n + 3 + k] == hands[k] by {}
    assert(record[n + 3 + h] == ' ' && record[n + 4 + h] == '1');
    assert(record.subrange(n, n + 3) =~= side_mark('b'));
    if hands == seq!['w'] {
        assert(record.subrange(n + 2, n + 5) =~= side_mark('w'));
        assert(occurs_at(record, side_mark('w'), n + 2));
    } else {
        assert forall|j: int| !occurs_at(record, side_mark('w'), j) by {
            if occurs_at(record, side_mark('w'), j) {
                let found = record.subrange(j, j + 3);
                assert(found[0] == record[j] && found[1] == record[j + 1] && found[2] == record[j
                    + 2]);
                if j < n {
                    assert(!is_space(board[j]));
                } else if j == n + 2 {
                    assert(hands[0] == 'w');
                    if h > 1 {
                        assert(!is_space(hands[1]));
                    } else {
                        assert(hands =~= seq!['w']);
                    }
                } else if n + 3 <= j < n + 3 + h {
                    assert(!is_space(hands[j - n - 3]));
                }
            }
        }
    }
}

/// Sets the mirror image of a position up with the attacker to move first:
/// see [`normalized`].
pub fn normalize_mirrored(mirrored: &str) -> (out: String)
    ensures
        out@ == normalized(mirrored@),
{
    let chars: Vec<char> = chars_of(mirrored);
    let parts: Vec<Vec<char>> = split_fields(&chars);
    if parts.len() >= 4 {
        let mut out = String::new();
        push_chars(&mut out, &parts[0]);
        out.push(' ');
        out.push('b');
        out.push(' ');
        push_chars(&mut out, &parts[2]);
        out.push(' ');
        out.push('1');
        assert(out@ =~= normalized(mirrored@));
        out
    } else {
        String::from_str(mirrored)
    }
}

/// The moves of a history as they follow the history mark: each with a blank
/// before it.
pub open spec fn move_list(history: Seq<Seq<char>>) -> Seq<char>
    decreases history.len(),
{
    if history.len() == 0 {
        Seq::empty()
    } else {
        move_list(history.drop_last()) + seq![' '] + history.last()
    }
}

/// The text that sets up a position for the engine: the base position, and
/// behind it the history mark and the moves made since, where there are any.
pub open spec fn position_text(base: Seq<char>, history: Seq<Seq<char>>) -> Seq<char> {
    if history.len() == 0 {
        base
    } else {
        base + history_mark() + move_list(history)
    }
}

/// Text that is added behind `s` changes nothing about where `pat` stands
/// within `s`.
pub proof fn lemma_occurs_in_prefix(s: Seq<char>, tail: Seq<char>, pat: Seq<char>, j: int)
    requires
        0 <= j,
        j + pat.len() <= s.len(),
    ensures
        occurs_at(s + tail, pat, j) == occurs_at(s, pat, j),
{
    assert((s + tail).subrange(j, j + pat.len()) =~= s.subrange(j, j + pat.len()));
}

/// The history mark that follows `s` is the first to begin in `s` or at its
/// end, unless a mark lies within `s`: no mark begins in `s` and ends behind
/// it, because the mark holds its one blank at its start.
pub proof fn lemma_no_mark_across(s: Seq<char>, rest: Seq<char>, j: int)
    requires
        0 <= j < s.len() < j + history_mark().len(),
    ensures
        !occurs_at(s + history_mark() + rest, history_mark(), j),
{
    let mark = history_mark();
    let whole = s + mark + rest;
    let d = s.len() - j;
    if occurs_at(whole, mark, j) {
        assert(whole.subrange(j, j + mark.len())[d] == whole[j + d]);
        assert(whole[s.len() as int] == mark[0]);
        assert(mark[d] != ' ');
    }
}

/// A position followed by the history mark and anything else strips to what
/// the position alone strips to.
pub proof fn lemma_position_only_of_history(base: Seq<char>, rest: Seq<char>)
    ensures
        position_only(base + history_mark() + rest) == position_only(base),
{
    let mark = history_mark();
    let tail = mark + rest;
    let whole = base + mark + rest;
    assert(whole =~= base + tail);
    if exists|i: int| first_occurrence(base, mark, i) {
        let i = choose|i: int| first_occurrence(base, mark, i);
        lemma_occurs_in_prefix(base, tail, mark, i);
        assert forall|j: int| 0 <= j < i implies !occurs_at(whole, mark, j) by {
            lemma_occurs_in_prefix(base, tail, mark, j);
        }
        lemma_position_only_at(whole, i);
        lemma_position_only_at(base, i);
        assert(whole.take(i) =~= base.take(i));
    } else {
        let k = base.len() as int;
        assert forall|j: int| !occurs_at(base, mark, j) by {
            if occurs_at(base, mark, j) {
                lemma_first_occurrence_exists(base, mark, j);
            }
        }
        assert(whole.subrange(k, k + mark.len()) =~= mark);
        assert forall|j: int| 0 <= j < k implies !occurs_at(whole, mark, j) by {
            if j + mark.len() <= k {
                lemma_occurs_in_prefix(base, tail, mark, j);
            } else {
                lemma_no_mark_across(base, rest, j);
            }
        }
        lemma_position_only_at(whole, k);
        assert(whole.take(k) =~= base);
        lemma_position_only_absent(base);
    }
}

/// Stripping a stripped position changes nothing.
pub proof fn lemma_position_only_idempotent(s: Seq<char>)
    ensures
        position_only(position_only(s)) == position_only(s),
{
    let mark = history_mark();
    if exists|i: int| first_occurrence(s, mark, i) {
        let i = choose|i: int| first_occurrence(s, mark, i);
        let p = s.take(i);
        assert forall|j: int| !occurs_at(p, mark, j) by {
            if occurs_at(p, mark, j) {
                assert(p.subrange(j, j + mark.len()) =~= s.subrange(j, j + mark.len()));
                assert(occurs_at(s, mark, j));
            }
        }
        lemma_position_only_absent(p);
    }
}

/// The text that sets up a position strips to what its base strips to.
pub proof fn lemma_position_text_strips(base: Seq<char>, history: Seq<Seq<char>>)
    ensures
        position_only(position_text(base, history)) == position_only(base),
{
    if history.len() > 0 {
        lemma_position_only_of_history(base, move_list(history));
    }
}

/// Builds the text that sets up a position: see [`position_text`].
pub fn position_command_text(base: &str, history: &Vec<String>) -> (out: String)
    ensures
        out@ == position_text(base@, texts(history@)),
{
    let mut out: String = String::from_str(base);
    let n: usize = history.len();
    if n == 0 {
        return out;
    }
    out.append(" moves");
    proof {
        reveal_strlit(" moves");
        assert(" moves"@ =~= history_mark());
    }
    let ghost all = texts(history@);
    let mut i: usize = 0;
    assert(move_list(all.take(0)) =~= Seq::<char>::empty());
    assert(base@ + history_mark() + Seq::<char>::empty() =~= base@ + history_mark());
    while i < n
        invariant
            n == history.len(),
            i <= n,
            all == texts(history@),
            out@ == base@ + history_mark() + move_list(all.take(i as int)),
        decreases n - i,
    {
        proof {
            let next = all.take(i + 1);
            assert(next.drop_last() =~= all.take(i as int));
            assert(next.last() == history@[i as int]@);
            assert(base@ + history_mark() + move_list(next) =~= (base@ + history_mark()
                + move_list(all.take(i as int))).push(' ') + history@[i as int]@);
        }
        out.push(' ');
        out.append(history[i].as_str());
        i += 1;
    }
    assert(all.take(n as int) =~= all);
    out
}

/// Takes the move history off a position string.
pub fn position_only_sfen(sfen: &str) -> (out: String)
    ensures
        out@ == position_only(sfen@),
{
    let mut chars: Vec<char> = chars_of(sfen);
    let mark: Vec<char> = chars_of(" moves");
    proof {
        reveal_strlit(" moves");
        assert(mark@ =~= history_mark());
    }
    match find(&chars, &mark) {
        Some(idx) => {
            proof {
                lemma_position_only_at(sfen@, idx as int);
            }
            chars.truncate(idx);
        },
        None => {
            proof {
                lemma_position_only_absent(sfen@);
            }
        },
    }
    string_of(&chars)
}

} // verus!
