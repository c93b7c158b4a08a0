//! The rate-limit argument: a decimal count with an optional binary
//! multiplier suffix (`k`, `m`, `g`, `t`).
use vstd::prelude::*;

use crate::decimal::parse_u64;
use crate::decimal::parse_u64_at;

verus! {

/// Why a rate-limit argument was refused.
#[derive(Debug, Clone, PartialEq, Eq)]
pub enum RateLimitError {
    /// Nothing but white space was given.
    Empty,
    /// The part before the suffix is not an unsigned decimal integer.
    InvalidNumber(String),
    /// The suffix is a letter other than `k`, `m`, `g` or `t` (given in lower case).
    InvalidSuffix(char),
    /// The value does not fit in 64 bits.
    TooLarge,
}

/// The mathematical value of a `RateLimitError`.
pub enum RateLimitErrorView {
    Empty,
    InvalidNumber(Seq<char>),
    InvalidSuffix(char),
    TooLarge,
}

impl View for RateLimitError {
    type V = RateLimitErrorView;

    open spec fn view(&self) -> RateLimitErrorView {
        match self {
            RateLimitError::Empty => RateLimitErrorView::Empty,
            RateLimitError::InvalidNumber(s) => RateLimitErrorView::InvalidNumber(s@),
            RateLimitError::InvalidSuffix(c) => RateLimitErrorView::InvalidSuffix(*c),
            RateLimitError::TooLarge => RateLimitErrorView::TooLarge,
        }
    }
}

/// White space as Unicode defines it (the `White_Space` property).
pub open spec fn is_white_space(c: char) -> bool {
    ||| '\u{9}' <= c <= '\u{d}'
    ||| c == ' '
    ||| c == '\u{85}'
    ||| c == '\u{a0}'
    ||| c == '\u{1680}'
    ||| '\u{2000}' <= c <= '\u{200a}'
    ||| c == '\u{2028}'
    ||| c == '\u{2029}'
    ||| c == '\u{202f}'
    ||| c == '\u{205f}'
    ||| c == '\u{3000}'
}

fn white_space(c: char) -> (r: bool)
    ensures
        r == is_white_space(c),
{
    ('\u{9}' <= c && c <= '\u{d}') || c == ' ' || c == '\u{85}' || c == '\u{a0}' || c == '\u{1680}'
        || ('\u{2000}' <= c && c <= '\u{200a}') || c == '\u{2028}' || c == '\u{2029}' || c
        == '\u{202f}' || c == '\u{205f}' || c == '\u{3000}'
}

/// The first position at or after `i` that does not hold white space.
pub open spec fn skip_white(s: Seq<char>, i: int) -> int
    decreases s.len() - i,
{
    if 0 <= i < s.len() && is_white_space(s[i]) {
        skip_white(s, i + 1)
    } else {
        i
    }
}

/// The end of `s[lo..j]` once trailing white space is dropped.
pub open spec fn back_white(s: Seq<char>, lo: int, j: int) -> int
    decreases j - lo,
{
    if lo < j && is_white_space(s[j - 1]) {
        back_white(s, lo, j - 1)
    } else {
        j
    }
}

/// `s` without leading and trailing white space.
pub open spec fn trimmed(s: Seq<char>) -> Seq<char> {
    let lo = skip_white(s, 0);
    s.subrange(lo, back_white(s, lo, s.len() as int))
}

pub open spec fn is_ascii_alpha(c: char) -> bool {
    ('a' <= c && c <= 'z') || ('A' <= c && c <= 'Z')
}

pub open spec fn ascii_lower(c: char) -> char {
    if 'A' <= c && c <= 'Z' {
        ((c as u32 + 32) as u8) as char
    } else {
        c
    }
}

/// The factor that a (lower-case) suffix letter stands for.
pub open spec fn multiplier(c: char) -> Option<u64> {
    if c == 'k' {
        Some(1024)
    } else if c == 'm' {
        Some(1048576)
    } else if c == 'g' {
        Some(1073741824)
    } else if c == 't' {
        Some(1099511627776)
    } else {
        None
    }
}

/// What a rate-limit argument denotes, or why it is refused. Surrounding white
/// space is ignored; a trailing ASCII letter is a suffix; the number is read
/// before the suffix is judged.
pub open spec fn rate_limit_of(s: Seq<char>) -> Result<u64, RateLimitErrorView> {
    let t = trimmed(s);
    if t.len() == 0 {
        Err(RateLimitErrorView::Empty)
    } else {
        let has_suffix = is_ascii_alpha(t.last());
        let number = if has_suffix {
            t.drop_last()
        } else {
            t
        };
        match parse_u64(number) {
            None => Err(RateLimitErrorView::InvalidNumber(number)),
            Some(base) => {
                if !has_suffix {
                    Ok(base)
                } else {
                    match multiplier(ascii_lower(t.last())) {
                        None => Err(RateLimitErrorView::InvalidSuffix(ascii_lower(t.last()))),
                        Some(m) => {
                            if base * m <= u64::MAX {
                                Ok((base * m) as u64)
                            } else {
                                Err(RateLimitErrorView::TooLarge)
                            }
                        },
                    }
                }
            },
        }
    }
}

/// Parses a rate-limit argument such as `500`, `1k` or `2M` into units per second.
pub fn parse_rate_limit(s: &str) -> (r: Result<u64, RateLimitError>)
    ensures
        match r {
            Ok(v) => rate_limit_of(s@) == Ok::<u64, RateLimitErrorView>(v),
            Err(e) => rate_limit_of(s@) == Err::<u64, RateLimitErrorView>(e@),
        },
{
    let n = s.unicode_len();
    let mut lo: usize = 0;
    while lo < n && white_space(s.get_char(lo))
        invariant
            n == s@.len(),
            lo <= n,
            skip_white(s@, 0) == skip_white(s@, lo as int),
        decreases n - lo,
    {
        lo = lo + 1;
    }
    let mut hi: usize = n;
    while hi > lo && white_space(s.get_char(hi - 1))
        invariant
            n == s@.len(),
            lo <= hi <= n,
            skip_white(s@, 0) == lo,
            back_white(s@, lo as int, n as int) == back_white(s@, lo as int, hi as int),
        decreases hi - lo,
    {
        hi = hi - 1;
    }
    let ghost t = trimmed(s@);
    assert(t == s@.subrange(lo as int, hi as int));
    if lo == hi {
        return Err(RateLimitError::Empty);
    }
    let last = s.get_char(hi - 1);
    assert(last == t.last());
    let has_suffix = ('a' <= last && last <= 'z') || ('A' <= last && last <= 'Z');
    let end = if has_suffix {
        hi - 1
    } else {
        hi
    };
    assert(s@.subrange(lo as int, end as int) == if has_suffix {
        t.drop_last()
    } else {
        t
    });
    let base = match parse_u64_at(s, lo, end) {
        Some(b) => b,
        None => {
            return Err(RateLimitError::InvalidNumber(String::from_str(s.substring_char(lo, end))));
        },
    };
    if !has_suffix {
        return Ok(base);
    }
    let suffix = if 'A' <= last && last <= 'Z' {
        ((last as u32 + 32) as u8) as char
    } else {
        last
    };
    let m: u64 = match suffix {
        'k' => 1024,
        'm' => 1048576,
        'g' => 1073741824,
        't' => 1099511627776,
        _ => {
            return Err(RateLimitError::InvalidSuffix(suffix));
        },
    };
    match base.checked_mul(m) {
        Some(v) => Ok(v),
        None => Err(RateLimitError::TooLarge),
    }
}

} // verus!
