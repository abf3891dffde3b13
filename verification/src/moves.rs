//! Move tokens and the two conventions for numbering files.
//!
//! The engine counts the files of the three-file board from the right, the
//! rules library counts them from the left. A token in one convention becomes
//! a token in the other by replacing every file `f` with `4 - f`.

use crate::text::chars_of;
use vstd::prelude::*;

verus! {

/// The file number in the other convention.
pub open spec fn mirror_file(f: int) -> int {
    4 - f
}

/// A character that stands for a file number that can be mirrored: a decimal
/// digit whose mirror image is a decimal digit again.
pub open spec fn is_file_char(c: char) -> bool {
    '0' <= c <= '4'
}

/// The number that a digit character stands for.
pub open spec fn file_of(c: char) -> int {
    c as u32 - '0' as u32
}

/// The digit character that stands for the number `f`.
pub open spec fn file_char(f: int) -> char {
    (('0' as u32 + f) as u8) as char
}

/// The file character in the other convention.
pub open spec fn mirror_file_char(c: char) -> char {
    file_char(mirror_file(file_of(c)))
}

/// A drop token: at least four characters, the second of which is the drop
/// marker.
pub open spec fn is_drop(t: Seq<char>) -> bool {
    t.len() >= 4 && t[1] == '*'
}

/// A drop token whose destination file can be mirrored.
pub open spec fn is_convertible_drop(t: Seq<char>) -> bool {
    is_drop(t) && is_file_char(t[2])
}

/// A from/to token whose two files can be mirrored.
pub open spec fn is_convertible_normal(t: Seq<char>) -> bool {
    t.len() >= 4 && t[1] != '*' && is_file_char(t[0]) && is_file_char(t[2])
}

/// The token `t` in the other file convention.
///
/// A convertible drop keeps its piece and rank and loses whatever follows the
/// fourth character. A convertible from/to move keeps its ranks and whatever
/// follows the fourth character (the promotion marker). Every other token is
/// left as it is.
pub open spec fn converted(t: Seq<char>) -> Seq<char> {
    if is_convertible_drop(t) {
        seq![t[0], '*', mirror_file_char(t[2]), t[3]]
    } else if is_convertible_normal(t) {
        seq![mirror_file_char(t[0]), t[1], mirror_file_char(t[2]), t[3]] + t.skip(4)
    } else {
        t
    }
}

/// Mirroring a file number twice gives the number back.
pub proof fn lemma_mirror_file_involution(f: int)
    ensures
        mirror_file(mirror_file(f)) == f,
{
}

/// The middle file is the one file that mirroring leaves in place.
pub proof fn lemma_mirror_file_fixed_point(f: int)
    ensures
        mirror_file(2) == 2,
        mirror_file(f) == f <==> f == 2,
{
}

/// Mirroring a file character gives a file character, and mirroring that one
/// gives the first back. The character of the middle file stays as it is.
pub proof fn lemma_mirror_file_char_involution(c: char)
    requires
        is_file_char(c),
    ensures
        is_file_char(mirror_file_char(c)),
        mirror_file_char(mirror_file_char(c)) == c,
        mirror_file_char('2') == '2',
{
}

/// Converting a token twice gives the token back.
///
/// A convertible drop loses what follows its fourth character, so the law
/// holds of such a drop only when it has exactly four characters. It holds of
/// every other token.
pub proof fn lemma_convert_involution(t: Seq<char>)
    requires
        is_convertible_drop(t) ==> t.len() == 4,
    ensures
        converted(converted(t)) == t,
{
    if is_convertible_drop(t) {
        lemma_mirror_file_char_involution(t[2]);
        let u = converted(t);
        assert(is_convertible_drop(u));
        assert(converted(u) =~= t);
    } else if is_convertible_normal(t) {
        lemma_mirror_file_char_involution(t[0]);
        lemma_mirror_file_char_involution(t[2]);
        let u = converted(t);
        assert(u.len() == t.len());
        assert(is_convertible_normal(u));
        assert(u.skip(4) =~= t.skip(4));
        assert(converted(u) =~= t);
    }
}

/// A token whose files are all the middle file is left as it is.
pub proof fn lemma_convert_middle_file(t: Seq<char>)
    requires
        is_drop(t) ==> t[2] == '2' && t.len() == 4,
        !is_drop(t) && t.len() >= 4 ==> t[0] == '2' && t[2] == '2',
    ensures
        converted(t) == t,
{
    lemma_mirror_file_char_involution('2');
    if is_convertible_drop(t) {
        assert(converted(t) =~= t);
    } else if is_convertible_normal(t) {
        assert(converted(t) =~= t);
    }
}

/// Mirrors one file character; gives nothing for any other character.
pub fn convert_file_char(c: char) -> (r: Option<char>)
    ensures
        r == if is_file_char(c) {
            Some(mirror_file_char(c))
        } else {
            None
        },
{
    if '0' <= c && c <= '4' {
        let file: u8 = (c as u32 - '0' as u32) as u8;
        Some((48u8 + (4 - file)) as char)
    } else {
        None
    }
}

/// Rewrites a move token from one file convention into the other: see
/// [`converted`].
pub fn convert_move_files(sfen: &str) -> (out: String)
    ensures
        out@ == converted(sfen@),
{
    let chars: Vec<char> = chars_of(sfen);
    let n: usize = chars.len();
    if n < 4 {
        return String::from_str(sfen);
    }
    if chars[1] == '*' {
        return match convert_file_char(chars[2]) {
            Some(file) => {
                let mut out = String::new();
                out.push(chars[0]);
                out.push('*');
                out.push(file);
                out.push(chars[3]);
                assert(out@ =~= converted(sfen@));
                out
            },
            None => String::from_str(sfen),
        };
    }
    match (convert_file_char(chars[0]), convert_file_char(chars[2])) {
        (Some(from_file), Some(to_file)) => {
            let mut out = String::new();
            out.push(from_file);
            out.push(chars[1]);
            out.push(to_file);
            out.push(chars[3]);
            let mut i: usize = 4;
            while i < n
                invariant
                    4 <= i <= n,
                    n == chars.len(),
                    chars@ == sfen@,
                    is_convertible_normal(sfen@),
                    out@ == converted(sfen@).take(i as int),
                decreases n - i,
            {
                out.push(chars[i]);
                assert(out@ =~= converted(sfen@).take(i + 1));
                i += 1;
            }
            assert(out@ =~= converted(sfen@));
            out
        },
        _ => String::from_str(sfen),
    }
}

} // verus!
