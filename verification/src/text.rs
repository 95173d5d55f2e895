//! Verified text utilities: character-wise string equality, separator and
//! whitespace splitting, and decimal parsing. These carry the string grammar
//! of the keybinding configuration and of spawn command lines.

use vstd::prelude::*;

verus! {

/// Character-wise string equality, stated over the views.
pub fn str_eq(a: &str, b: &str) -> (r: bool)
    ensures
        r == (a@ == b@),
{
    let n = a.unicode_len();
    let m = b.unicode_len();
    if n != m {
        return false;
    }
    let mut i: usize = 0;
    while i < n
        invariant
            n == a@.len(),
            n == b@.len(),
            0 <= i <= n,
            forall|j: int| 0 <= j < i ==> a@[j] == b@[j],
        decreases n - i,
    {
        let ca = a.get_char(i);
        let cb = b.get_char(i);
        if ca != cb {
            return false;
        }
        i = i + 1;
    }
    proof {
        assert(a@ =~= b@);
    }
    true
}

/// Whether two characters are the same letter up to ASCII case.
pub open spec fn same_letter_ascii(a: char, b: char) -> bool {
    ||| a == b
    ||| (65 <= a as u32 <= 90 && b as u32 == a as u32 + 32)
    ||| (65 <= b as u32 <= 90 && a as u32 == b as u32 + 32)
}

/// Whether two strings agree character by character up to ASCII case.
pub open spec fn eq_ignore_ascii_case(a: Seq<char>, b: Seq<char>) -> bool {
    a.len() == b.len() && forall|i: int| 0 <= i < a.len() ==> same_letter_ascii(a[i], b[i])
}

/// Character-wise comparison ignoring ASCII case.
pub fn str_eq_ignore_ascii_case(a: &str, b: &str) -> (r: bool)
    ensures
        r == eq_ignore_ascii_case(a@, b@),
{
    let n = a.unicode_len();
    let m = b.unicode_len();
    if n != m {
        return false;
    }
    let mut i: usize = 0;
    while i < n
        invariant
            n == a@.len(),
            n == b@.len(),
            0 <= i <= n,
            forall|j: int| 0 <= j < i ==> same_letter_ascii(a@[j], b@[j]),
        decreases n - i,
    {
        let ca = a.get_char(i) as u32;
        let cb = b.get_char(i) as u32;
        let same = ca == cb || (65 <= ca && ca <= 90 && cb == ca + 32) || (65 <= cb && cb <= 90
            && ca == cb + 32);
        if !same {
            return false;
        }
        i = i + 1;
    }
    true
}

/// The tokens of `s` split on the separator, left to right: `cur` is the
/// token being accumulated. Every separator ends a token, so consecutive
/// separators yield empty tokens and the result always holds at least one
/// token (as `str::split` does).
pub open spec fn split_rec(s: Seq<char>, sep: char, cur: Seq<char>) -> Seq<Seq<char>>
    decreases s.len(),
{
    if s.len() == 0 {
        seq![cur]
    } else if s[0] == sep {
        seq![cur] + split_rec(s.drop_first(), sep, Seq::empty())
    } else {
        split_rec(s.drop_first(), sep, cur.push(s[0]))
    }
}

/// The tokens of `s` split on `sep`.
pub open spec fn split_on(s: Seq<char>, sep: char) -> Seq<Seq<char>> {
    split_rec(s, sep, Seq::empty())
}

/// Splitting always yields at least one token.
pub proof fn lemma_split_rec_len(s: Seq<char>, sep: char, cur: Seq<char>)
    ensures
        split_rec(s, sep, cur).len() >= 1,
    decreases s.len(),
{
    if s.len() == 0 {
    } else if s[0] == sep {
    } else {
        lemma_split_rec_len(s.drop_first(), sep, cur.push(s[0]));
    }
}

/// Whether `c` is an ASCII whitespace character (space, tab, newline or
/// carriage return); command lines are split on these.
pub open spec fn spec_is_space(c: char) -> bool {
    c == ' ' || c == '\t' || c == '\n' || c == '\r'
}

/// The whitespace-delimited words of `s`, left to right: `cur` is the word
/// being accumulated; empty words are dropped, so consecutive whitespace
/// acts as a single delimiter (as `str::split_whitespace` does).
pub open spec fn words_rec(s: Seq<char>, cur: Seq<char>) -> Seq<Seq<char>>
    decreases s.len(),
{
    if s.len() == 0 {
        if cur.len() > 0 {
            seq![cur]
        } else {
            Seq::empty()
        }
    } else if spec_is_space(s[0]) {
        if cur.len() > 0 {
            seq![cur] + words_rec(s.drop_first(), Seq::empty())
        } else {
            words_rec(s.drop_first(), Seq::empty())
        }
    } else {
        words_rec(s.drop_first(), cur.push(s[0]))
    }
}

/// The whitespace-delimited words of `s`.
pub open spec fn split_words(s: Seq<char>) -> Seq<Seq<char>> {
    words_rec(s, Seq::empty())
}

/// Splits a command line into its whitespace-delimited words: the first is
/// the program name, the rest its arguments. No shell interpretation and no
/// quoting support.
pub fn split_command(cmd: &str) -> (r: Vec<String>)
    ensures
        r.deep_view() == split_words(cmd@),
{
    let n = cmd.unicode_len();
    let mut out: Vec<String> = Vec::new();
    let mut start: usize = 0;
    let mut i: usize = 0;
    proof {
        assert(out.deep_view() =~= Seq::<Seq<char>>::empty());
        assert(cmd@.skip(0) =~= cmd@);
        assert(cmd@.subrange(0, 0) =~= Seq::<char>::empty());
        assert(Seq::<Seq<char>>::empty() + words_rec(cmd@, Seq::<char>::empty()) =~= words_rec(
            cmd@, Seq::<char>::empty()));
    }
    while i < n
        invariant
            n == cmd@.len(),
            0 <= start <= i <= n,
            split_words(cmd@) == out.deep_view() + words_rec(cmd@.skip(i as int),
                cmd@.subrange(start as int, i as int)),
        decreases n - i,
    {
        let c = cmd.get_char(i);
        let is_space = c == ' ' || c == '\t' || c == '\n' || c == '\r';
        proof {
            assert(cmd@.skip(i as int)[0] == cmd@[i as int]);
            assert(cmd@.skip(i as int).drop_first() =~= cmd@.skip(i as int + 1));
            assert(cmd@.subrange(start as int, i as int).push(cmd@[i as int]) =~= cmd@.subrange(
                start as int, i as int + 1));
        }
        if is_space {
            if start < i {
                let word = cmd.substring_char(start, i);
                let owned = word.to_owned();
                out.push(owned);
                proof {
                    assert(out.deep_view() =~= out.deep_view().drop_last().push(cmd@.subrange(
                        start as int, i as int)));
                    assert(out.deep_view().drop_last() + (seq![cmd@.subrange(start as int,
                        i as int)] + words_rec(cmd@.skip(i as int + 1), Seq::empty()))
                        =~= out.deep_view() + words_rec(cmd@.skip(i as int + 1), Seq::empty()));
                }
            } else {
                proof {
                    assert(cmd@.subrange(start as int, i as int).len() == 0);
                }
            }
            start = i + 1;
            proof {
                assert(cmd@.subrange(start as int, start as int) =~= Seq::<char>::empty());
            }
        }
        i = i + 1;
    }
    proof {
        assert(cmd@.skip(n as int) =~= Seq::<char>::empty());
    }
    if start < n {
        let word = cmd.substring_char(start, n);
        let owned = word.to_owned();
        out.push(owned);
        proof {
            assert(out.deep_view() =~= out.deep_view().drop_last().push(cmd@.subrange(
                start as int, n as int)));
            assert(out.deep_view().drop_last() + seq![cmd@.subrange(start as int, n as int)]
                =~= out.deep_view());
        }
    } else {
        proof {
            assert(cmd@.subrange(start as int, n as int).len() == 0);
        }
    }
    out
}

/// Whether `c` is a decimal digit.
pub open spec fn is_digit_char(c: char) -> bool {
    48 <= c as u32 <= 57
}

/// The numeric value of a digit character.
pub open spec fn digit_val(c: char) -> int {
    c as u32 - 48
}

/// The value of a digit string read as a decimal number.
pub open spec fn digits_val(s: Seq<char>) -> int
    decreases s.len(),
{
    if s.len() == 0 {
        0
    } else {
        10 * digits_val(s.drop_last()) + digit_val(s.last())
    }
}

/// Whether `s` is a non-empty string of decimal digits.
pub open spec fn all_digits(s: Seq<char>) -> bool {
    s.len() > 0 && forall|i: int| 0 <= i < s.len() ==> is_digit_char(s[i])
}

/// What a decimal string denotes as a `u32`: its value when it is all
/// digits and in range, nothing otherwise.
pub open spec fn parse_u32_spec(s: Seq<char>) -> Option<u32> {
    if all_digits(s) && digits_val(s) <= u32::MAX {
        Some(digits_val(s) as u32)
    } else {
        None
    }
}

/// A digit string has a non-negative value.
pub proof fn lemma_digits_val_nonneg(s: Seq<char>)
    requires
        forall|i: int| 0 <= i < s.len() ==> is_digit_char(s[i]),
    ensures
        digits_val(s) >= 0,
    decreases s.len(),
{
    if s.len() > 0 {
        lemma_digits_val_nonneg(s.drop_last());
    }
}

/// The value of a digit string dominates the value of each of its prefixes.
pub proof fn lemma_digits_prefix_le(s: Seq<char>, j: int)
    requires
        forall|i: int| 0 <= i < s.len() ==> is_digit_char(s[i]),
        0 <= j <= s.len(),
    ensures
        digits_val(s.subrange(0, j)) <= digits_val(s),
    decreases s.len() - j,
{
    if j == s.len() {
        assert(s.subrange(0, j) =~= s);
    } else {
        let p = s.subrange(0, j);
        let q = s.subrange(0, j + 1);
        assert(q.drop_last() =~= p);
        assert(q.last() == s[j]);
        lemma_digits_val_nonneg(p);
        assert(digits_val(q) == 10 * digits_val(p) + digit_val(s[j]));
        lemma_digits_prefix_le(s, j + 1);
    }
}

/// Parses a non-empty all-digit decimal string into a `u32`; anything else
/// (empty, a non-digit anywhere, or a value beyond `u32::MAX`) is rejected.
pub fn parse_u32(s: &str) -> (r: Option<u32>)
    ensures
        r == parse_u32_spec(s@),
{
    let n = s.unicode_len();
    if n == 0 {
        return None;
    }
    let mut val: u32 = 0;
    let mut i: usize = 0;
    while i < n
        invariant
            n == s@.len(),
            0 < n,
            0 <= i <= n,
            forall|j: int| 0 <= j < i ==> is_digit_char(s@[j]),
            val == digits_val(s@.subrange(0, i as int)),
        decreases n - i,
    {
        let c = s.get_char(i);
        let cu = c as u32;
        if cu < 48 || cu > 57 {
            return None;
        }
        let d = cu - 48;
        proof {
            assert(s@.subrange(0, i as int + 1).drop_last() =~= s@.subrange(0, i as int));
            assert(s@.subrange(0, i as int + 1).last() == s@[i as int]);
            assert(digits_val(s@.subrange(0, i as int + 1)) == 10 * val + d);
        }
        if val > (u32::MAX - d) / 10 {
            proof {
                assert(10 * (val as int) + d > u32::MAX) by (nonlinear_arith)
                    requires
                        val as int > (0xffff_ffff - d) / 10,
                        0 <= d <= 9,
                ;
                if all_digits(s@) {
                    lemma_digits_prefix_le(s@, i as int + 1);
                }
            }
            return None;
        }
        val = val * 10 + d;
        i = i + 1;
    }
    proof {
        assert(s@.subrange(0, n as int) =~= s@);
    }
    Some(val)
}

} // verus!
