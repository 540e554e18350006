//! Tokenization used by the binding special-case: recognizing a statement
//! that begins with the binding keyword, and extracting its second
//! whitespace-delimited token (the bound name).

use vstd::prelude::*;

verus! {

/// The characters with the Unicode `White_Space` property: exactly the
/// characters on which whitespace-delimited tokens are split.
pub open spec fn is_space_char(c: char) -> bool {
    ||| c == '\u{0009}'
    ||| c == '\u{000A}'
    ||| c == '\u{000B}'
    ||| c == '\u{000C}'
    ||| c == '\u{000D}'
    ||| c == '\u{0020}'
    ||| c == '\u{0085}'
    ||| c == '\u{00A0}'
    ||| c == '\u{1680}'
    ||| ('\u{2000}' <= c && c <= '\u{200A}')
    ||| c == '\u{2028}'
    ||| c == '\u{2029}'
    ||| c == '\u{202F}'
    ||| c == '\u{205F}'
    ||| c == '\u{3000}'
}

/// Whether `c` has the Unicode `White_Space` property.
pub fn is_space(c: char) -> (b: bool)
    ensures
        b == is_space_char(c),
{
    c == '\u{0009}' || c == '\u{000A}' || c == '\u{000B}' || c == '\u{000C}' || c == '\u{000D}'
        || c == '\u{0020}' || c == '\u{0085}' || c == '\u{00A0}' || c == '\u{1680}'
        || ('\u{2000}' <= c && c <= '\u{200A}') || c == '\u{2028}' || c == '\u{2029}'
        || c == '\u{202F}' || c == '\u{205F}' || c == '\u{3000}'
}

/// The first position at or after `i` whose character is not whitespace,
/// or the end of `s`.
pub open spec fn skip_spaces(s: Seq<char>, i: int) -> int
    decreases s.len() - i when 0 <= i <= s.len()
{
    if i < s.len() && is_space_char(s[i]) {
        skip_spaces(s, i + 1)
    } else {
        i
    }
}

/// The first position at or after `i` whose character is whitespace,
/// or the end of `s`.
pub open spec fn skip_token(s: Seq<char>, i: int) -> int
    decreases s.len() - i when 0 <= i <= s.len()
{
    if i < s.len() && !is_space_char(s[i]) {
        skip_token(s, i + 1)
    } else {
        i
    }
}

/// The second whitespace-delimited token of `s`, or `None` when `s` holds
/// fewer than two tokens.
pub open spec fn second_token_of(s: Seq<char>) -> Option<Seq<char>> {
    let a = skip_spaces(s, 0);
    let b = skip_token(s, a);
    let c = skip_spaces(s, b);
    let d = skip_token(s, c);
    if c < s.len() {
        Some(s.subrange(c, d))
    } else {
        None
    }
}

fn skip_spaces_exec(s: &str, i: usize, llen: usize) -> (r: usize)
    requires
        llen == s@.len(),
        i <= llen,
    ensures
        r == skip_spaces(s@, i as int),
        i <= r <= llen,
{
    let mut j = i;
    while j < llen && is_space(s.get_char(j))
        invariant
            llen == s@.len(),
            i <= j <= llen,
            skip_spaces(s@, i as int) == skip_spaces(s@, j as int),
        decreases llen - j,
    {
        j += 1;
    }
    j
}

fn skip_token_exec(s: &str, i: usize, llen: usize) -> (r: usize)
    requires
        llen == s@.len(),
        i <= llen,
    ensures
        r == skip_token(s@, i as int),
        i <= r <= llen,
{
    let mut j = i;
    while j < llen && !is_space(s.get_char(j))
        invariant
            llen == s@.len(),
            i <= j <= llen,
            skip_token(s@, i as int) == skip_token(s@, j as int),
        decreases llen - j,
    {
        j += 1;
    }
    j
}

/// The second whitespace-delimited token of `s`, or `None` when there is none.
pub fn second_token(s: &str) -> (r: Option<String>)
    ensures
        match r {
            Some(t) => second_token_of(s@) == Some(t@),
            None => second_token_of(s@) is None,
        },
{
    let llen = s.unicode_len();
    let a = skip_spaces_exec(s, 0, llen);
    let b = skip_token_exec(s, a, llen);
    let c = skip_spaces_exec(s, b, llen);
    let d = skip_token_exec(s, c, llen);
    if c < llen {
        Some(String::from_str(s.substring_char(c, d)))
    } else {
        None
    }
}

/// Whether the statement begins with the binding keyword `let`.
pub open spec fn spec_starts_with_let(s: Seq<char>) -> bool {
    s.len() >= 3 && s[0] == 'l' && s[1] == 'e' && s[2] == 't'
}

/// Whether the statement begins with the binding keyword `let`.
pub fn starts_with_let(s: &str) -> (b: bool)
    ensures
        b == spec_starts_with_let(s@),
{
    let llen = s.unicode_len();
    llen >= 3 && s.get_char(0) == 'l' && s.get_char(1) == 'e' && s.get_char(2) == 't'
}

} // verus!
