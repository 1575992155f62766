//! The meaning of the translation, as specification functions: the
//! two-character escape table, the foreground-color grammar, and the whole
//! left-to-right rewrite of the input.

use vstd::prelude::*;

verus! {

/// Output of the two-character escape table for `\` followed by `c`, or
/// `None` when `c` is not a recognized escape character.
pub open spec fn escape_token(c: char) -> Option<Seq<char>> {
    if c == 'u' {
        Some(seq!['%', 'n'])
    } else if c == 'h' {
        Some(seq!['%', 'm'])
    } else if c == 'H' {
        Some(seq!['%', 'M'])
    } else if c == 'j' {
        Some(seq!['%', 'j'])
    } else if c == 'l' {
        Some(seq!['%', 'y'])
    } else if c == 't' {
        Some(seq!['%', '*'])
    } else if c == '@' {
        Some(seq!['%', '@'])
    } else if c == 'w' {
        Some(seq!['%', '~'])
    } else if c == 'W' {
        Some(seq!['%', '1', '~'])
    } else if c == '!' {
        Some(seq!['%', '!'])
    } else if c == '$' {
        Some(seq!['%', '(', '#', '.', '#', '.', '$', ')'])
    } else {
        None
    }
}

pub open spec fn is_digit(c: char) -> bool {
    '0' <= c && c <= '9'
}

/// Length of the maximal run of decimal digits at the front of `s`.
pub open spec fn digit_run_len(s: Seq<char>) -> nat
    decreases s.len(),
{
    if s.len() > 0 && is_digit(s[0]) {
        digit_run_len(s.skip(1)) + 1
    } else {
        0
    }
}

/// `digit_run_len` is exactly the position of the first non-digit (or the
/// whole length when every character is a digit).
pub proof fn lemma_digit_run_len(t: Seq<char>, k: int)
    requires
        0 <= k <= t.len(),
        forall|m: int| 0 <= m < k ==> is_digit(t[m]),
        k == t.len() || !is_digit(t[k]),
    ensures
        digit_run_len(t) == k,
    decreases k,
{
    if k > 0 {
        assert(forall|m: int| 0 <= m < k - 1 ==> t.skip(1)[m] == t[m + 1]);
        lemma_digit_run_len(t.skip(1), k - 1);
    }
}

/// The numeric codes that name a foreground color: `30..=37` standard,
/// `90..=97` bright.
pub open spec fn is_fg_code(code: int) -> bool {
    (30 <= code && code <= 37) || (90 <= code && code <= 97)
}

/// The palette index a foreground code selects: standard codes map to
/// `0..=7`, bright codes to `8..=15`.
pub open spec fn fg_index(code: int) -> int {
    if code <= 37 {
        code - 30
    } else {
        code - 82
    }
}

/// Value of a single decimal digit character.
pub open spec fn digit_val(c: char) -> int {
    if c == '0' {
        0
    } else if c == '1' {
        1
    } else if c == '2' {
        2
    } else if c == '3' {
        3
    } else if c == '4' {
        4
    } else if c == '5' {
        5
    } else if c == '6' {
        6
    } else if c == '7' {
        7
    } else if c == '8' {
        8
    } else {
        9
    }
}

/// Decimal spelling of a palette index in `0..=15`.
pub open spec fn index_digits(n: int) -> Seq<char> {
    if n == 0 {
        seq!['0']
    } else if n == 1 {
        seq!['1']
    } else if n == 2 {
        seq!['2']
    } else if n == 3 {
        seq!['3']
    } else if n == 4 {
        seq!['4']
    } else if n == 5 {
        seq!['5']
    } else if n == 6 {
        seq!['6']
    } else if n == 7 {
        seq!['7']
    } else if n == 8 {
        seq!['8']
    } else if n == 9 {
        seq!['9']
    } else if n == 10 {
        seq!['1', '0']
    } else if n == 11 {
        seq!['1', '1']
    } else if n == 12 {
        seq!['1', '2']
    } else if n == 13 {
        seq!['1', '3']
    } else if n == 14 {
        seq!['1', '4']
    } else if n == 15 {
        seq!['1', '5']
    } else {
        seq![]
    }
}

/// The directive emitted for a fully scanned numeric code, or `None` when the
/// code is not representable and the run must pass through unchanged.
/// Code `0` resets the foreground; a two-digit code led by `3` or `9` selects
/// a palette index.
pub open spec fn code_token(code: Seq<char>) -> Option<Seq<char>> {
    if code.len() == 1 && code[0] == '0' {
        Some(seq!['%', 'f'])
    } else if code.len() == 2 && (code[0] == '3' || code[0] == '9') && '0' <= code[1] && code[1]
        <= '7' {
        Some(
            seq!['%', 'F', '{'] + index_digits(
                fg_index(10 * digit_val(code[0]) + digit_val(code[1])),
            ) + seq!['}'],
        )
    } else {
        None
    }
}

/// `s` begins with the color-sequence opener `\033[`.
pub open spec fn color_intro(s: Seq<char>) -> bool {
    s.len() >= 5 && s[0] == '\\' && s[1] == '0' && s[2] == '3' && s[3] == '3' && s[4] == '['
}

/// `s` begins with a complete color sequence `\033[<digits>m`, with at least
/// one digit.
pub open spec fn color_token_at(s: Seq<char>) -> bool {
    color_intro(s) && {
        let d = digit_run_len(s.skip(5)) as int;
        d >= 1 && 5 + d < s.len() && s[5 + d] == 'm'
    }
}

/// What a color sequence at the front of `s` rewrites to: the mapped
/// directive when the code is representable, the consumed characters
/// themselves when it is not.
pub open spec fn color_output(s: Seq<char>) -> Seq<char> {
    let d = digit_run_len(s.skip(5)) as int;
    match code_token(s.subrange(5, 5 + d)) {
        Some(t) => t,
        None => s.subrange(0, 6 + d),
    }
}

/// The whole rewrite, defined over the input character sequence, scanning
/// left to right.
///
/// A backslash opens either a color sequence (when `colors` is set and a
/// complete `\033[<digits>m` run follows) or a two-character escape; an
/// unrecognized or incomplete sequence after a backslash is echoed verbatim,
/// two characters at a time. Every other character passes through unchanged.
pub open spec fn translation(s: Seq<char>, colors: bool) -> Seq<char>
    decreases s.len(),
{
    if s.len() == 0 {
        Seq::empty()
    } else if s[0] != '\\' {
        seq![s[0]] + translation(s.skip(1), colors)
    } else if colors && color_token_at(s) {
        let d = digit_run_len(s.skip(5)) as int;
        color_output(s) + translation(s.skip(6 + d), colors)
    } else if s.len() >= 2 && escape_token(s[1]) is Some {
        escape_token(s[1])->Some_0 + translation(s.skip(2), colors)
    } else if s.len() >= 2 {
        seq!['\\', s[1]] + translation(s.skip(2), colors)
    } else {
        seq!['\\']
    }
}

} // verus!
