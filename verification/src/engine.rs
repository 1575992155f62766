//! The executable translation engine: a single left-to-right scan of the
//! input, proved to produce exactly the character sequence that
//! [`translation`](crate::semantics::translation) describes.

use vstd::prelude::*;
use vstd::string::StrSliceExecFns;

use crate::semantics::code_token;
use crate::semantics::color_output;
use crate::semantics::color_token_at;
use crate::semantics::digit_run_len;
use crate::semantics::escape_token;
use crate::semantics::is_digit;
use crate::semantics::lemma_digit_run_len;
use crate::semantics::translation;

verus! {

/// Relies on `String::push`: appends the given character to the end of the
/// string.
#[verifier::external_body]
fn push_char(out: &mut String, c: char)
    ensures
        final(out)@ == old(out)@ + seq![c],
{
    out.push(c);
}

fn digit_check(c: char) -> (r: bool)
    ensures
        r == is_digit(c),
{
    '0' <= c && c <= '9'
}

/// Appends the escape-table output for `c`, reporting whether `c` is a
/// recognized escape character; an unrecognized one appends nothing.
fn push_escape_token(out: &mut String, c: char) -> (matched: bool)
    ensures
        matched == (escape_token(c) is Some),
        matched ==> final(out)@ == old(out)@ + escape_token(c)->Some_0,
        !matched ==> final(out)@ == old(out)@,
{
    match c {
        'u' => {
            push_char(out, '%');
            push_char(out, 'n');
            proof {
                assert(out@ =~= old(out)@ + escape_token(c)->Some_0);
            }
            true
        },
        'h' => {
            push_char(out, '%');
            push_char(out, 'm');
            proof {
                assert(out@ =~= old(out)@ + escape_token(c)->Some_0);
            }
            true
        },
        'H' => {
            push_char(out, '%');
            push_char(out, 'M');
            proof {
                assert(out@ =~= old(out)@ + escape_token(c)->Some_0);
            }
            true
        },
        'j' => {
            push_char(out, '%');
            push_char(out, 'j');
            proof {
                assert(out@ =~= old(out)@ + escape_token(c)->Some_0);
            }
            true
        },
        'l' => {
            push_char(out, '%');
            push_char(out, 'y');
            proof {
                assert(out@ =~= old(out)@ + escape_token(c)->Some_0);
            }
            true
        },
        't' => {
            push_char(out, '%');
            push_char(out, '*');
            proof {
                assert(out@ =~= old(out)@ + escape_token(c)->Some_0);
            }
            true
        },
        '@' => {
            push_char(out, '%');
            push_char(out, '@');
            proof {
                assert(out@ =~= old(out)@ + escape_token(c)->Some_0);
            }
            true
        },
        'w' => {
            push_char(out, '%');
            push_char(out, '~');
            proof {
                assert(out@ =~= old(out)@ + escape_token(c)->Some_0);
            }
            true
        },
        'W' => {
            push_char(out, '%');
            push_char(out, '1');
            push_char(out, '~');
            proof {
                assert(out@ =~= old(out)@ + escape_token(c)->Some_0);
            }
            true
        },
        '!' => {
            push_char(out, '%');
            push_char(out, '!');
            proof {
                assert(out@ =~= old(out)@ + escape_token(c)->Some_0);
            }
            true
        },
        '$' => {
            push_char(out, '%');
            push_char(out, '(');
            push_char(out, '#');
            push_char(out, '.');
            push_char(out, '#');
            push_char(out, '.');
            push_char(out, '$');
            push_char(out, ')');
            proof {
                assert(out@ =~= old(out)@ + escape_token(c)->Some_0);
            }
            true
        },
        _ => false,
    }
}

/// Appends `prompt`'s characters from `from` to `to` inclusive, unchanged.
fn push_verbatim(prompt: &str, from: usize, to: usize, n: usize, out: &mut String)
    requires
        n == prompt@.len(),
        from <= to < n,
    ensures
        final(out)@ == old(out)@ + prompt@.subrange(from as int, to + 1),
{
    let mut k = from;
    proof {
        assert(out@ =~= old(out)@ + prompt@.subrange(from as int, from as int));
    }
    while k <= to
        invariant
            n == prompt@.len(),
            from <= k <= to + 1,
            to < n,
            out@ == old(out)@ + prompt@.subrange(from as int, k as int),
        decreases to + 1 - k,
    {
        push_char(out, prompt.get_char(k));
        proof {
            assert(prompt@.subrange(from as int, k + 1) =~= prompt@.subrange(
                from as int,
                k as int,
            ) + seq![prompt@[k as int]]);
            assert(out@ =~= old(out)@ + prompt@.subrange(from as int, k + 1));
        }
        k += 1;
    }
}

/// Attempts to consume a complete color sequence `\033[<digits>m` whose
/// backslash stands at position `i`, appending its rewrite to `out`.
/// Returns the position just past the sequence, or `None` (appending
/// nothing) when no complete sequence starts at `i`.
fn try_color_token(prompt: &str, i: usize, n: usize, out: &mut String) -> (consumed: Option<usize>)
    requires
        n == prompt@.len(),
        i < n,
        prompt@[i as int] == '\\',
    ensures
        match consumed {
            Some(ni) => {
                &&& color_token_at(prompt@.skip(i as int))
                &&& ni == i + 6 + digit_run_len(prompt@.skip(i as int).skip(5))
                &&& i < ni <= n
                &&& final(out)@ == old(out)@ + color_output(prompt@.skip(i as int))
            },
            None => {
                &&& !color_token_at(prompt@.skip(i as int))
                &&& final(out)@ == old(out)@
            },
        },
{
    let ghost s_i = prompt@.skip(i as int);
    if n - i < 5 {
        return None;
    }
    if !(prompt.get_char(i + 1) == '0' && prompt.get_char(i + 2) == '3' && prompt.get_char(i + 3)
        == '3' && prompt.get_char(i + 4) == '[') {
        return None;
    }
    let mut j = i + 5;
    while j < n
        invariant
            n == prompt@.len(),
            i + 5 <= j <= n,
            forall|m: int| i + 5 <= m < j ==> is_digit(prompt@[m]),
        ensures
            i + 5 <= j <= n,
            forall|m: int| i + 5 <= m < j ==> is_digit(prompt@[m]),
            j == n || !is_digit(prompt@[j as int]),
        decreases n - j,
    {
        if digit_check(prompt.get_char(j)) {
            j += 1;
        } else {
            break;
        }
    }
    proof {
        assert(s_i.skip(5) =~= prompt@.skip(i as int + 5));
        assert(forall|m: int|
            0 <= m < j - (i + 5) ==> #[trigger] prompt@.skip(i as int + 5)[m] == prompt@[i + 5
                + m]);
        lemma_digit_run_len(prompt@.skip(i as int + 5), j - (i + 5));
    }
    let ghost d = digit_run_len(s_i.skip(5)) as int;
    if j == i + 5 || j == n {
        return None;
    }
    if prompt.get_char(j) != 'm' {
        return None;
    }
    proof {
        assert(color_token_at(s_i));
    }
    let ghost code = s_i.subrange(5, 5 + d);
    proof {
        assert(forall|m: int| 0 <= m < d ==> #[trigger] code[m] == prompt@[i + 5 + m]);
    }
    let c0 = prompt.get_char(i + 5);
    let reset = j == i + 6 && c0 == '0';
    let mut palette = false;
    let mut c1 = ' ';
    if j == i + 7 {
        c1 = prompt.get_char(i + 6);
        palette = (c0 == '3' || c0 == '9') && '0' <= c1 && c1 <= '7';
    }
    if reset {
        push_char(out, '%');
        push_char(out, 'f');
        proof {
            assert(code =~= seq!['0']);
            assert(out@ =~= old(out)@ + color_output(s_i));
        }
    } else if palette {
        push_char(out, '%');
        push_char(out, 'F');
        push_char(out, '{');
        if c0 == '3' {
            push_char(out, c1);
        } else {
            match c1 {
                '0' => {
                    push_char(out, '8');
                },
                '1' => {
                    push_char(out, '9');
                },
                '2' => {
                    push_char(out, '1');
                    push_char(out, '0');
                },
                '3' => {
                    push_char(out, '1');
                    push_char(out, '1');
                },
                '4' => {
                    push_char(out, '1');
                    push_char(out, '2');
                },
                '5' => {
                    push_char(out, '1');
                    push_char(out, '3');
                },
                '6' => {
                    push_char(out, '1');
                    push_char(out, '4');
                },
                _ => {
                    push_char(out, '1');
                    push_char(out, '5');
                },
            }
        }
        push_char(out, '}');
        proof {
            assert(code.len() == 2 && code[0] == c0 && code[1] == c1);
            assert(out@ =~= old(out)@ + color_output(s_i));
        }
    } else {
        proof {
            assert(code_token(code) is None);
            assert(s_i.subrange(0, 6 + d) =~= prompt@.subrange(i as int, j + 1));
        }
        push_verbatim(prompt, i, j, n, out);
        proof {
            assert(out@ =~= old(out)@ + color_output(s_i));
        }
    }
    Some(j + 1)
}

/// The translation engine: rewrites the prompt's backslash escapes, and its
/// foreground-color sequences when `colors` is set, leaving every other
/// character untouched. Total: it never fails, whatever the input holds.
pub fn translate(prompt: &str, colors: bool) -> (r: String)
    ensures
        r@ == translation(prompt@, colors),
{
    let n = prompt.unicode_len();
    let mut out = String::new();
    let mut i: usize = 0;
    proof {
        assert(prompt@.skip(0) =~= prompt@);
        assert(out@ + translation(prompt@, colors) =~= translation(prompt@, colors));
    }
    while i < n
        invariant
            n == prompt@.len(),
            i <= n,
            out@ + translation(prompt@.skip(i as int), colors) == translation(prompt@, colors),
        decreases n - i,
    {
        let ghost s_i = prompt@.skip(i as int);
        let ghost out_entry = out@;
        let c = prompt.get_char(i);
        if c != '\\' {
            push_char(&mut out, c);
            proof {
                assert(s_i.skip(1) =~= prompt@.skip(i + 1));
                assert(out@ + translation(prompt@.skip(i + 1), colors) =~= out_entry + translation(
                    s_i,
                    colors,
                ));
            }
            i += 1;
        } else {
            let mut advanced = false;
            if colors {
                match try_color_token(prompt, i, n, &mut out) {
                    Some(ni) => {
                        proof {
                            let d = digit_run_len(s_i.skip(5)) as int;
                            assert(s_i.skip(6 + d) =~= prompt@.skip(ni as int));
                            assert(out@ + translation(prompt@.skip(ni as int), colors)
                                =~= out_entry + translation(s_i, colors));
                        }
                        i = ni;
                        advanced = true;
                    },
                    None => {},
                }
            }
            if !advanced {
                if n - i >= 2 {
                    let c1 = prompt.get_char(i + 1);
                    if !push_escape_token(&mut out, c1) {
                        push_char(&mut out, '\\');
                        push_char(&mut out, c1);
                    }
                    proof {
                        assert(s_i.skip(2) =~= prompt@.skip(i + 2));
                        assert(out@ + translation(prompt@.skip(i + 2), colors) =~= out_entry
                            + translation(s_i, colors));
                    }
                    i += 2;
                } else {
                    push_char(&mut out, '\\');
                    proof {
                        assert(s_i.len() == 1);
                        assert(prompt@.skip(i + 1) =~= Seq::<char>::empty());
                        assert(out@ + translation(prompt@.skip(i + 1), colors) =~= out_entry
                            + translation(s_i, colors));
                    }
                    i += 1;
                }
            }
        }
    }
    proof {
        assert(prompt@.skip(n as int) =~= Seq::<char>::empty());
        assert(out@ =~= translation(prompt@, colors));
    }
    out
}

/// Translates a whole prompt with color translation enabled.
pub fn convert_prompt(prompt: String) -> (r: String)
    ensures
        r@ == translation(prompt@, true),
{
    translate(prompt.as_str(), true)
}

} // verus!
