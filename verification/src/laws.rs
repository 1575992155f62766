//! Properties of the translation, proved once and for all inputs: plain text
//! passes through unchanged, each escape-table entry rewrites to exactly its
//! listed output, color runs rewrite to their directive when enabled and
//! pass through byte-identical when disabled, and the code-to-index mapping
//! is total, order-preserving and collision-free.

use vstd::prelude::*;

use crate::semantics::code_token;
use crate::semantics::color_token_at;
use crate::semantics::digit_run_len;
use crate::semantics::escape_token;
use crate::semantics::fg_index;
use crate::semantics::is_digit;
use crate::semantics::is_fg_code;
use crate::semantics::lemma_digit_run_len;
use crate::semantics::translation;

verus! {

/// A run of characters without a backslash passes through unchanged, and
/// translation continues independently after it.
pub proof fn lemma_plain_prefix(p: Seq<char>, rest: Seq<char>, colors: bool)
    requires
        forall|k: int| 0 <= k < p.len() ==> p[k] != '\\',
    ensures
        translation(p + rest, colors) == p + translation(rest, colors),
    decreases p.len(),
{
    if p.len() == 0 {
        assert(p + rest =~= rest);
        assert(p + translation(rest, colors) =~= translation(rest, colors));
    } else {
        let s = p + rest;
        assert(s.skip(1) =~= p.skip(1) + rest);
        assert(forall|k: int| 0 <= k < p.skip(1).len() ==> #[trigger] p.skip(1)[k] != '\\');
        lemma_plain_prefix(p.skip(1), rest, colors);
        assert(translation(s, colors) =~= seq![s[0]] + (p.skip(1) + translation(rest, colors)));
        assert(seq![s[0]] + (p.skip(1) + translation(rest, colors)) =~= p + translation(
            rest,
            colors,
        ));
    }
}

/// For input containing no backslash — and with it no escape token and no
/// color sequence — the translation is the identity.
pub proof fn lemma_plain_text_identity(s: Seq<char>, colors: bool)
    requires
        forall|k: int| 0 <= k < s.len() ==> s[k] != '\\',
    ensures
        translation(s, colors) == s,
{
    lemma_plain_prefix(s, Seq::empty(), colors);
    assert(s + Seq::<char>::empty() =~= s);
    assert(s + translation(Seq::<char>::empty(), colors) =~= s);
}

/// Each escape-table entry, standing alone after its backslash, translates
/// to exactly its listed output and nothing else, whether or not color
/// translation is enabled.
pub proof fn lemma_escape_token_exact(c: char, colors: bool)
    requires
        escape_token(c) is Some,
    ensures
        translation(seq!['\\', c], colors) == escape_token(c)->Some_0,
{
    let s = seq!['\\', c];
    assert(s.len() == 2 && s[0] == '\\' && s[1] == c);
    assert(!color_token_at(s));
    assert(s.skip(2) =~= Seq::<char>::empty());
    assert(translation(s.skip(2), colors) == Seq::<char>::empty());
    assert(translation(s, colors) == escape_token(c)->Some_0 + translation(s.skip(2), colors));
    assert(escape_token(c)->Some_0 + Seq::<char>::empty() =~= escape_token(c)->Some_0);
}

/// With color translation enabled, a complete color run `\033[<digits>m`
/// rewrites to its directive — or passes through unchanged when the code is
/// not representable — and translation continues independently after it.
pub proof fn lemma_color_run_translated(ds: Seq<char>, rest: Seq<char>)
    requires
        ds.len() >= 1,
        forall|k: int| 0 <= k < ds.len() ==> is_digit(ds[k]),
    ensures
        translation(seq!['\\', '0', '3', '3', '['] + ds + seq!['m'] + rest, true) == (match code_token(
            ds,
        ) {
            Some(t) => t,
            None => seq!['\\', '0', '3', '3', '['] + ds + seq!['m'],
        }) + translation(rest, true),
{
    let run = seq!['\\', '0', '3', '3', '['] + ds + seq!['m'];
    let s = run + rest;
    let d = ds.len() as int;
    assert(forall|k: int| 0 <= k < d ==> #[trigger] s.skip(5)[k] == ds[k]);
    assert(s.skip(5)[d] == 'm');
    lemma_digit_run_len(s.skip(5), d);
    assert(color_token_at(s));
    assert(s.subrange(5, 5 + d) =~= ds);
    assert(s.skip(6 + d) =~= rest);
    assert(s.subrange(0, 6 + d) =~= run);
    match code_token(ds) {
        Some(t) => {
            assert(translation(s, true) =~= t + translation(rest, true));
        },
        None => {
            assert(translation(s, true) =~= run + translation(rest, true));
        },
    }
}

/// With color translation disabled, a color run `\033[<digits>m` appears in
/// the output byte-identical, its leading backslash included, and
/// translation continues independently after it.
pub proof fn lemma_color_run_untouched_when_disabled(ds: Seq<char>, rest: Seq<char>)
    requires
        forall|k: int| 0 <= k < ds.len() ==> is_digit(ds[k]),
    ensures
        translation(seq!['\\', '0', '3', '3', '['] + ds + seq!['m'] + rest, false) == seq!['\\', '0', '3', '3', '[']
            + ds + seq!['m'] + translation(rest, false),
{
    let run = seq!['\\', '0', '3', '3', '['] + ds + seq!['m'];
    let s = run + rest;
    let p = seq!['3', '3', '['] + ds + seq!['m'];
    assert(s[0] == '\\' && s[1] == '0');
    assert(escape_token('0') is None);
    assert(s.skip(2) =~= p + rest);
    assert(forall|k: int| 0 <= k < p.len() ==> #[trigger] p[k] != '\\');
    lemma_plain_prefix(p, rest, false);
    assert(translation(s, false) =~= seq!['\\', '0'] + (p + translation(rest, false)));
    assert(seq!['\\', '0'] + (p + translation(rest, false)) =~= run + translation(rest, false));
}

/// Some foreground code selects palette index `idx`.
pub open spec fn index_reached(idx: int) -> bool {
    exists|code: int| is_fg_code(code) && #[trigger] fg_index(code) == idx
}

/// The code-to-index mapping behind `%F{..}`: standard codes `30..=37` map
/// to `code - 30`, bright codes `90..=97` to `code - 82`; on the sixteen
/// codes it lands in `0..=15`, preserves order, never collides, and reaches
/// every index.
pub proof fn lemma_fg_index_properties()
    ensures
        forall|code: int| 30 <= code <= 37 ==> #[trigger] fg_index(code) == code - 30,
        forall|code: int| 90 <= code <= 97 ==> #[trigger] fg_index(code) == code - 82,
        forall|code: int| is_fg_code(code) ==> 0 <= #[trigger] fg_index(code) <= 15,
        forall|a: int, b: int|
            is_fg_code(a) && is_fg_code(b) && a < b ==> #[trigger] fg_index(a) < #[trigger] fg_index(
                b,
            ),
        forall|idx: int| 0 <= idx <= 15 ==> #[trigger] index_reached(idx),
{
    assert forall|idx: int| 0 <= idx <= 15 implies #[trigger] index_reached(idx) by {
        let code = if idx < 8 {
            idx + 30
        } else {
            idx + 82
        };
        assert(is_fg_code(code) && fg_index(code) == idx);
    }
}

} // verus!
