//! The template mini-language: a template string is compiled once into an
//! ordered sequence of display tokens.
use vstd::prelude::*;

use crate::decimal::{digits_value, is_digit};

verus! {

/// One display token of a compiled template.
#[derive(Debug, Clone, PartialEq, Eq)]
pub enum FormatToken {
    /// Literal text, shown as it stands.
    Text(String),
    /// A progress bar followed by its percentage.
    Progress { width: Option<usize> },
    /// A progress bar alone.
    ProgressBarOnly { width: Option<usize> },
    /// The percentage alone.
    ProgressAmountOnly,
    /// Elapsed time.
    Timer,
    /// Estimated time of arrival.
    Eta,
    /// Absolute estimated time of arrival (shown as `Eta` for now).
    Fineta,
    /// Current transfer rate.
    Rate,
    /// Average transfer rate (shown as `Rate` for now).
    AverageRate,
    /// Units transferred so far.
    Bytes,
    /// The name label.
    Name,
}

/// The mathematical value of a `FormatToken`.
pub enum TokenView {
    Text(Seq<char>),
    Progress { width: Option<usize> },
    ProgressBarOnly { width: Option<usize> },
    ProgressAmountOnly,
    Timer,
    Eta,
    Fineta,
    Rate,
    AverageRate,
    Bytes,
    Name,
}

impl View for FormatToken {
    type V = TokenView;

    open spec fn view(&self) -> TokenView {
        match self {
            FormatToken::Text(s) => TokenView::Text(s@),
            FormatToken::Progress { width } => TokenView::Progress { width: *width },
            FormatToken::ProgressBarOnly { width } => TokenView::ProgressBarOnly { width: *width },
            FormatToken::ProgressAmountOnly => TokenView::ProgressAmountOnly,
            FormatToken::Timer => TokenView::Timer,
            FormatToken::Eta => TokenView::Eta,
            FormatToken::Fineta => TokenView::Fineta,
            FormatToken::Rate => TokenView::Rate,
            FormatToken::AverageRate => TokenView::AverageRate,
            FormatToken::Bytes => TokenView::Bytes,
            FormatToken::Name => TokenView::Name,
        }
    }
}

/// The views of a sequence of tokens.
pub open spec fn tokens_view(ts: Seq<FormatToken>) -> Seq<TokenView> {
    ts.map_values(|t: FormatToken| t@)
}

/// The end of the run of decimal digits that starts at `i`.
pub open spec fn digits_end(s: Seq<char>, i: int) -> int
    decreases s.len() - i,
{
    if 0 <= i < s.len() && is_digit(s[i]) {
        digits_end(s, i + 1)
    } else {
        i
    }
}

/// The first position at or after `i` that holds `}`, or the length where none does.
pub open spec fn brace_end(s: Seq<char>, i: int) -> int
    decreases s.len() - i,
{
    if 0 <= i < s.len() && s[i] != '}' {
        brace_end(s, i + 1)
    } else {
        i
    }
}

/// The width hint that a run of digits gives: none when the run is empty or
/// its value does not fit in `usize`.
pub open spec fn width_of(d: Seq<char>) -> Option<usize> {
    if d.len() > 0 && digits_value(d) <= usize::MAX {
        Some(digits_value(d) as usize)
    } else {
        None
    }
}

/// The token that a brace-delimited directive name selects.
pub open spec fn named_token(name: Seq<char>, width: Option<usize>) -> Option<TokenView> {
    if name == "progress"@ {
        Some(TokenView::Progress { width })
    } else if name == "progress-bar-only"@ {
        Some(TokenView::ProgressBarOnly { width })
    } else if name == "progress-amount-only"@ {
        Some(TokenView::ProgressAmountOnly)
    } else if name == "timer"@ {
        Some(TokenView::Timer)
    } else if name == "eta"@ {
        Some(TokenView::Eta)
    } else if name == "fineta"@ {
        Some(TokenView::Fineta)
    } else if name == "rate"@ {
        Some(TokenView::Rate)
    } else if name == "average-rate"@ {
        Some(TokenView::AverageRate)
    } else if name == "bytes"@ || name == "transferred"@ {
        Some(TokenView::Bytes)
    } else if name == "name"@ {
        Some(TokenView::Name)
    } else {
        None
    }
}

/// The token that a one-character directive selects.
pub open spec fn short_token(c: char, width: Option<usize>) -> Option<TokenView> {
    if c == 'p' {
        Some(TokenView::Progress { width })
    } else if c == 't' {
        Some(TokenView::Timer)
    } else if c == 'e' {
        Some(TokenView::Eta)
    } else if c == 'I' {
        Some(TokenView::Fineta)
    } else if c == 'r' {
        Some(TokenView::Rate)
    } else if c == 'a' {
        Some(TokenView::AverageRate)
    } else if c == 'b' {
        Some(TokenView::Bytes)
    } else if c == 'N' {
        Some(TokenView::Name)
    } else {
        None
    }
}

/// A selected token, or the directive's own text `s[i..e]` when nothing is selected.
pub open spec fn token_or_text(t: Option<TokenView>, s: Seq<char>, i: int, e: int) -> TokenView {
    match t {
        Some(t) => t,
        None => TokenView::Text(s.subrange(i, e)),
    }
}

/// The position just after the piece of template that starts at `i`.
pub open spec fn piece_end(s: Seq<char>, i: int) -> int {
    if s[i] != '%' {
        i + 1
    } else if i + 1 < s.len() && s[i + 1] == '%' {
        i + 2
    } else {
        let j = digits_end(s, i + 1);
        if j < s.len() && s[j] == '{' {
            let k = brace_end(s, j + 1);
            if k < s.len() {
                k + 1
            } else {
                s.len() as int
            }
        } else if j < s.len() {
            j + 1
        } else {
            s.len() as int
        }
    }
}

/// The token that the piece of template starting at `i` stands for: a plain
/// character, `%%`, a directive, or the verbatim text of a directive that
/// selects nothing (an unknown name or character, an unclosed brace, a `%` at
/// the end).
pub open spec fn piece_token(s: Seq<char>, i: int) -> TokenView {
    if s[i] != '%' {
        TokenView::Text(seq![s[i]])
    } else if i + 1 < s.len() && s[i + 1] == '%' {
        TokenView::Text(seq!['%'])
    } else {
        let j = digits_end(s, i + 1);
        let width = width_of(s.subrange(i + 1, j));
        let e = piece_end(s, i);
        if j < s.len() && s[j] == '{' && brace_end(s, j + 1) < s.len() {
            token_or_text(named_token(s.subrange(j + 1, brace_end(s, j + 1)), width), s, i, e)
        } else if j < s.len() && s[j] != '{' {
            token_or_text(short_token(s[j], width), s, i, e)
        } else {
            TokenView::Text(s.subrange(i, e))
        }
    }
}

proof fn lemma_digits_end(s: Seq<char>, i: int)
    requires
        0 <= i <= s.len(),
    ensures
        i <= digits_end(s, i) <= s.len(),
        forall|k: int| i <= k < digits_end(s, i) ==> is_digit(#[trigger] s[k]),
        digits_end(s, i) < s.len() ==> !is_digit(s[digits_end(s, i)]),
    decreases s.len() - i,
{
    if i < s.len() && is_digit(s[i]) {
        lemma_digits_end(s, i + 1);
    }
}

proof fn lemma_brace_end(s: Seq<char>, i: int)
    requires
        0 <= i <= s.len(),
    ensures
        i <= brace_end(s, i) <= s.len(),
        forall|k: int| i <= k < brace_end(s, i) ==> #[trigger] s[k] != '}',
        brace_end(s, i) < s.len() ==> s[brace_end(s, i)] == '}',
    decreases s.len() - i,
{
    if i < s.len() && s[i] != '}' {
        lemma_brace_end(s, i + 1);
    }
}

proof fn lemma_piece_end(s: Seq<char>, i: int)
    requires
        0 <= i < s.len(),
    ensures
        i < piece_end(s, i) <= s.len(),
{
    if s[i] == '%' {
        lemma_digits_end(s, i + 1);
        let j = digits_end(s, i + 1);
        if j < s.len() && s[j] == '{' {
            lemma_brace_end(s, j + 1);
        }
    }
}

#[via_fn]
proof fn pieces_decreases(s: Seq<char>, i: int) {
    if 0 <= i < s.len() {
        lemma_piece_end(s, i);
    }
}

/// The template from position `i` on, read piece by piece.
pub open spec fn pieces(s: Seq<char>, i: int) -> Seq<TokenView>
    decreases s.len() - i,
    via pieces_decreases
{
    if 0 <= i < s.len() {
        seq![piece_token(s, i)] + pieces(s, piece_end(s, i))
    } else {
        Seq::empty()
    }
}

/// Joins consecutive literal texts into one.
pub open spec fn join_text(ts: Seq<TokenView>) -> Seq<TokenView>
    decreases ts.len(),
{
    if ts.len() == 0 {
        ts
    } else {
        let m = join_text(ts.drop_last());
        match ts.last() {
            TokenView::Text(b) => {
                if m.len() > 0 && m.last() is Text {
                    m.drop_last().push(TokenView::Text(m.last()->0 + b))
                } else {
                    m.push(ts.last())
                }
            },
            _ => m.push(ts.last()),
        }
    }
}

/// The token sequence that a template compiles to.
pub open spec fn compile(s: Seq<char>) -> Seq<TokenView> {
    join_text(pieces(s, 0))
}

/// `ts` followed by the literal `t`, where `t` is not empty.
pub open spec fn with_text(ts: Seq<TokenView>, t: Seq<char>) -> Seq<TokenView> {
    if t.len() == 0 {
        ts
    } else {
        ts.push(TokenView::Text(t))
    }
}

pub open spec fn opt_view(o: Option<FormatToken>) -> Option<TokenView> {
    match o {
        Some(t) => Some(t@),
        None => None,
    }
}

/// Whether the characters `s[lo..hi]` are the text `lit`.
fn range_is(s: &str, lo: usize, hi: usize, lit: &str) -> (r: bool)
    requires
        lo <= hi <= s@.len(),
    ensures
        r == (s@.subrange(lo as int, hi as int) == lit@),
{
    let n = lit.unicode_len();
    if hi - lo != n {
        return false;
    }
    let mut k: usize = 0;
    while k < n
        invariant
            k <= n,
            n == lit@.len(),
            n == hi - lo,
            lo <= hi <= s@.len(),
            forall|m: int| 0 <= m < k ==> s@[lo + m] == lit@[m],
        decreases n - k,
    {
        if s.get_char(lo + k) != lit.get_char(k) {
            assert(s@.subrange(lo as int, hi as int)[k as int] != lit@[k as int]);
            return false;
        }
        k = k + 1;
    }
    assert(s@.subrange(lo as int, hi as int) =~= lit@);
    true
}

/// The token that the directive name `s[lo..hi]` selects.
fn name_token(s: &str, lo: usize, hi: usize, width: Option<usize>) -> (r: Option<FormatToken>)
    requires
        lo <= hi <= s@.len(),
    ensures
        opt_view(r) == named_token(s@.subrange(lo as int, hi as int), width),
{
    if range_is(s, lo, hi, "progress") {
        Some(FormatToken::Progress { width })
    } else if range_is(s, lo, hi, "progress-bar-only") {
        Some(FormatToken::ProgressBarOnly { width })
    } else if range_is(s, lo, hi, "progress-amount-only") {
        Some(FormatToken::ProgressAmountOnly)
    } else if range_is(s, lo, hi, "timer") {
        Some(FormatToken::Timer)
    } else if range_is(s, lo, hi, "eta") {
        Some(FormatToken::Eta)
    } else if range_is(s, lo, hi, "fineta") {
        Some(FormatToken::Fineta)
    } else if range_is(s, lo, hi, "rate") {
        Some(FormatToken::Rate)
    } else if range_is(s, lo, hi, "average-rate") {
        Some(FormatToken::AverageRate)
    } else if range_is(s, lo, hi, "bytes") || range_is(s, lo, hi, "transferred") {
        Some(FormatToken::Bytes)
    } else if range_is(s, lo, hi, "name") {
        Some(FormatToken::Name)
    } else {
        None
    }
}

/// The token that the one-character directive `c` selects.
fn char_token(c: char, width: Option<usize>) -> (r: Option<FormatToken>)
    ensures
        opt_view(r) == short_token(c, width),
{
    match c {
        'p' => Some(FormatToken::Progress { width }),
        't' => Some(FormatToken::Timer),
        'e' => Some(FormatToken::Eta),
        'I' => Some(FormatToken::Fineta),
        'r' => Some(FormatToken::Rate),
        'a' => Some(FormatToken::AverageRate),
        'b' => Some(FormatToken::Bytes),
        'N' => Some(FormatToken::Name),
        _ => None,
    }
}

/// The literal text `s[lo..hi]`.
fn text_of(s: &str, lo: usize, hi: usize) -> (r: FormatToken)
    requires
        lo < hi <= s@.len(),
    ensures
        r@ == TokenView::Text(s@.subrange(lo as int, hi as int)),
{
    FormatToken::Text(String::from_str(s.substring_char(lo, hi)))
}

/// Reads the piece of template that starts at `i`: its token and the position after it.
fn scan_piece(s: &str, n: usize, i: usize) -> (r: (FormatToken, usize))
    requires
        n == s@.len(),
        i < n,
    ensures
        r.0@ == piece_token(s@, i as int),
        r.1 == piece_end(s@, i as int),
        r.0@ matches TokenView::Text(b) ==> b.len() > 0,
{
    let c = s.get_char(i);
    if c != '%' {
        let t = text_of(s, i, i + 1);
        assert(s@.subrange(i as int, i + 1) =~= seq![s@[i as int]]);
        return (t, i + 1);
    }
    if i + 1 < n && s.get_char(i + 1) == '%' {
        proof {
            reveal_strlit("%");
        }
        assert("%"@ =~= seq!['%']);
        return (FormatToken::Text(String::from_str("%")), i + 2);
    }
    let mut j: usize = i + 1;
    let mut value: Option<usize> = Some(0);
    loop
        invariant
            n == s@.len(),
            i < j <= n,
            s@[i as int] == '%',
            digits_end(s@, i + 1) == digits_end(s@, j as int),
            forall|k: int| i < k < j ==> is_digit(#[trigger] s@[k]),
            match value {
                Some(v) => v == digits_value(s@.subrange(i + 1, j as int)),
                None => digits_value(s@.subrange(i + 1, j as int)) > usize::MAX,
            },
        ensures
            j == digits_end(s@, i + 1),
        decreases n - j,
    {
        if j >= n {
            break;
        }
        let d = s.get_char(j);
        if !('0' <= d && d <= '9') {
            break;
        }
        let ghost before = s@.subrange(i + 1, j as int);
        assert(s@.subrange(i + 1, j + 1).drop_last() =~= before);
        let digit = (d as u32 - '0' as u32) as usize;
        value = match value {
            Some(v) => match v.checked_mul(10) {
                Some(v10) => v10.checked_add(digit),
                None => None,
            },
            None => None,
        };
        j = j + 1;
    }
    let width = if j > i + 1 {
        value
    } else {
        None
    };
    assert(width == width_of(s@.subrange(i + 1, j as int)));
    if j < n && s.get_char(j) == '{' {
        let mut k: usize = j + 1;
        while k < n && s.get_char(k) != '}'
            invariant
                n == s@.len(),
                j < k <= n,
                brace_end(s@, j + 1) == brace_end(s@, k as int),
            decreases n - k,
        {
            k = k + 1;
        }
        assert(brace_end(s@, j + 1) == k);
        if k < n {
            match name_token(s, j + 1, k, width) {
                Some(t) => (t, k + 1),
                None => (text_of(s, i, k + 1), k + 1),
            }
        } else {
            (text_of(s, i, n), n)
        }
    } else if j < n {
        match char_token(s.get_char(j), width) {
            Some(t) => (t, j + 1),
            None => (text_of(s, i, j + 1), j + 1),
        }
    } else {
        (text_of(s, i, n), n)
    }
}

/// Compiles a template into its display tokens.
///
/// `%%` stands for a literal `%`; `%` followed by optional width digits and a
/// brace-delimited name or a single character selects a token; a directive
/// that selects nothing is kept verbatim as literal text. Consecutive literal
/// text is joined into one token.
pub fn parse_format_string(format_str: &str) -> (r: Vec<FormatToken>)
    ensures
        tokens_view(r@) == compile(format_str@),
{
    let n = format_str.unicode_len();
    let mut tokens: Vec<FormatToken> = Vec::new();
    let mut text = String::new();
    let mut i: usize = 0;
    let ghost mut done: Seq<TokenView> = Seq::empty();
    assert(done + pieces(format_str@, 0) =~= pieces(format_str@, 0));
    while i < n
        invariant
            n == format_str@.len(),
            i <= n,
            pieces(format_str@, 0) == done + pieces(format_str@, i as int),
            join_text(done) == with_text(tokens_view(tokens@), text@),
            tokens@.len() > 0 ==> tokens@.last() !is Text,
        decreases n - i,
    {
        let (t, next) = scan_piece(format_str, n, i);
        proof {
            lemma_piece_end(format_str@, i as int);
            let rest = pieces(format_str@, next as int);
            assert(pieces(format_str@, i as int) == seq![t@] + rest);
            assert(done + (seq![t@] + rest) =~= done.push(t@) + rest);
            assert(done.push(t@).drop_last() =~= done);
            done = done.push(t@);
        }
        let ghost tv = tokens_view(tokens@);
        match t {
            FormatToken::Text(b) => {
                text.append(b.as_str());
                proof {
                    if tv.len() > 0 {
                        assert(tv.last() == tokens@.last()@);
                    }
                }
            },
            other => {
                if !text.as_str().is_empty() {
                    let ghost run = text@;
                    tokens.push(FormatToken::Text(text));
                    text = String::new();
                    assert(tokens_view(tokens@) =~= tv.push(TokenView::Text(run)));
                }
                let ghost tv2 = tokens_view(tokens@);
                tokens.push(other);
                assert(tokens_view(tokens@) =~= tv2.push(other@));
            },
        }
        i = next;
    }
    if !text.as_str().is_empty() {
        let ghost tv = tokens_view(tokens@);
        tokens.push(FormatToken::Text(text));
        assert(tokens_view(tokens@) =~= tv.push(TokenView::Text(text@)));
    }
    assert(done =~= pieces(format_str@, 0));
    tokens
}

/// The text of a literal token (empty for any other token).
pub open spec fn literal_of(t: TokenView) -> Seq<char> {
    match t {
        TokenView::Text(x) => x,
        _ => Seq::empty(),
    }
}

/// Every token is a literal text that is not empty.
pub open spec fn all_literal(ts: Seq<TokenView>) -> bool {
    forall|k: int| 0 <= k < ts.len() ==> #[trigger] ts[k] is Text && ts[k]->0.len() > 0
}

/// The texts of the tokens, one after the other.
pub open spec fn flat(ts: Seq<TokenView>) -> Seq<char>
    decreases ts.len(),
{
    if ts.len() == 0 {
        Seq::empty()
    } else {
        flat(ts.drop_last()) + literal_of(ts.last())
    }
}

/// No `%` stands in `s[i..k]`.
pub open spec fn plain(s: Seq<char>, i: int, k: int) -> bool {
    forall|m: int| i <= m < k ==> #[trigger] s[m] != '%'
}

proof fn lemma_flat_append(x: Seq<TokenView>, y: Seq<TokenView>)
    ensures
        flat(x + y) == flat(x) + flat(y),
    decreases y.len(),
{
    if y.len() == 0 {
        assert(x + y =~= x);
        assert(flat(x) + flat(y) =~= flat(x));
    } else {
        lemma_flat_append(x, y.drop_last());
        assert((x + y).drop_last() =~= x + y.drop_last());
        assert(flat(x) + flat(y.drop_last()) + literal_of(y.last()) =~= flat(x) + (flat(
            y.drop_last(),
        ) + literal_of(y.last())));
    }
}

proof fn lemma_join_literals(ts: Seq<TokenView>)
    requires
        all_literal(ts),
    ensures
        join_text(ts) == with_text(Seq::empty(), flat(ts)),
    decreases ts.len(),
{
    if ts.len() > 0 {
        let init = ts.drop_last();
        assert(all_literal(init)) by {
            assert forall|k: int| 0 <= k < init.len() implies #[trigger] init[k] is Text
                && init[k]->0.len() > 0 by {
                assert(init[k] == ts[k]);
            }
        }
        lemma_join_literals(init);
        assert(ts[ts.len() - 1] is Text);
        let m = join_text(init);
        if flat(init).len() > 0 {
            assert(m.drop_last() =~= Seq::<TokenView>::empty());
        }
        assert(flat(ts).len() > 0);
    }
}

/// A run of plain characters reads as one literal piece per character.
proof fn lemma_plain_run(s: Seq<char>, i: int, k: int) -> (t: Seq<TokenView>)
    requires
        0 <= i <= k <= s.len(),
        plain(s, i, k),
    ensures
        pieces(s, i) == t + pieces(s, k),
        all_literal(t),
        flat(t) == s.subrange(i, k),
    decreases k - i,
{
    if i == k {
        let t = Seq::<TokenView>::empty();
        assert(t + pieces(s, k) =~= pieces(s, k));
        assert(s.subrange(i, k) =~= Seq::<char>::empty());
        t
    } else {
        let rest = lemma_plain_run(s, i + 1, k);
        let first = seq![TokenView::Text(seq![s[i]])];
        assert(s[i] != '%');
        let t = first + rest;
        assert(pieces(s, i) == first + pieces(s, i + 1));
        assert(first + (rest + pieces(s, k)) =~= t + pieces(s, k));
        assert(all_literal(t)) by {
            assert forall|m: int| 0 <= m < t.len() implies #[trigger] t[m] is Text && t[m]->0.len()
                > 0 by {
                if m > 0 {
                    assert(t[m] == rest[m - 1]);
                }
            }
        }
        lemma_flat_append(first, rest);
        assert(first.drop_last() =~= Seq::<TokenView>::empty());
        assert(flat(first.drop_last()) =~= Seq::<char>::empty());
        assert(flat(first) =~= seq![s[i]]);
        assert(s.subrange(i, k) =~= seq![s[i]] + s.subrange(i + 1, k));
        t
    }
}

/// A template of plain text around one piece that reads as the literal `x`
/// compiles to a single literal.
proof fn lemma_one_literal_piece(s: Seq<char>, p: int, x: Seq<char>)
    requires
        0 <= p < s.len(),
        plain(s, 0, p),
        plain(s, piece_end(s, p), s.len() as int),
        piece_token(s, p) == TokenView::Text(x),
        x.len() > 0,
        p < piece_end(s, p) <= s.len(),
    ensures
        compile(s) == seq![
            TokenView::Text(s.subrange(0, p) + x + s.subrange(piece_end(s, p), s.len() as int)),
        ],
{
    let e = piece_end(s, p);
    let ta = lemma_plain_run(s, 0, p);
    let tb = lemma_plain_run(s, e, s.len() as int);
    assert(pieces(s, s.len() as int) =~= Seq::<TokenView>::empty());
    let mid = seq![TokenView::Text(x)];
    assert(pieces(s, p) == mid + pieces(s, e));
    let all = ta + mid + tb;
    assert(pieces(s, 0) =~= all);
    assert(all_literal(all)) by {
        assert forall|m: int| 0 <= m < all.len() implies #[trigger] all[m] is Text && all[m]->0.len()
            > 0 by {
            if m < ta.len() {
                assert(all[m] == ta[m]);
            } else if m == ta.len() {
                assert(all[m] == mid[0]);
            } else {
                assert(all[m] == tb[m - ta.len() - 1]);
            }
        }
    }
    lemma_flat_append(ta + mid, tb);
    lemma_flat_append(ta, mid);
    assert(mid.drop_last() =~= Seq::<TokenView>::empty());
    assert(flat(mid.drop_last()) =~= Seq::<char>::empty());
    assert(flat(mid) =~= x);
    lemma_join_literals(all);
}

/// A template without `%` compiles to itself as a single literal, or to
/// nothing when it is empty.
pub proof fn law_literal_template(s: Seq<char>)
    requires
        plain(s, 0, s.len() as int),
    ensures
        compile(s) == with_text(Seq::empty(), s),
{
    let t = lemma_plain_run(s, 0, s.len() as int);
    assert(pieces(s, s.len() as int) =~= Seq::<TokenView>::empty());
    assert(t + pieces(s, s.len() as int) =~= t);
    assert(s.subrange(0, s.len() as int) =~= s);
    lemma_join_literals(t);
}

/// `%%` between plain texts compiles to one literal holding a single `%`.
pub proof fn law_percent_escape(a: Seq<char>, b: Seq<char>)
    requires
        plain(a, 0, a.len() as int),
        plain(b, 0, b.len() as int),
    ensures
        compile(a + seq!['%', '%'] + b) == seq![TokenView::Text(a + seq!['%'] + b)],
{
    let s = a + seq!['%', '%'] + b;
    let p = a.len() as int;
    assert(s[p] == '%' && s[p + 1] == '%');
    assert(plain(s, 0, p)) by {
        assert forall|m: int| 0 <= m < p implies #[trigger] s[m] != '%' by {
            assert(s[m] == a[m]);
        }
    }
    assert(plain(s, p + 2, s.len() as int)) by {
        assert forall|m: int| p + 2 <= m < s.len() implies #[trigger] s[m] != '%' by {
            assert(s[m] == b[m - p - 2]);
        }
    }
    lemma_one_literal_piece(s, p, seq!['%']);
    assert(s.subrange(0, p) =~= a);
    assert(s.subrange(p + 2, s.len() as int) =~= b);
}

/// A directive with a brace-delimited name that selects nothing stays as its
/// own text.
pub proof fn law_unknown_name_verbatim(a: Seq<char>, name: Seq<char>, b: Seq<char>)
    requires
        plain(a, 0, a.len() as int),
        plain(b, 0, b.len() as int),
        forall|m: int| 0 <= m < name.len() ==> #[trigger] name[m] != '}',
        named_token(name, None) is None,
    ensures
        compile(a + seq!['%', '{'] + name + seq!['}'] + b) == seq![
            TokenView::Text(a + seq!['%', '{'] + name + seq!['}'] + b),
        ],
{
    let d = seq!['%', '{'] + name + seq!['}'];
    let s = a + d + b;
    assert(s =~= a + seq!['%', '{'] + name + seq!['}'] + b);
    let p = a.len() as int;
    let k = p + 2 + name.len();
    assert(s[p] == '%' && s[p + 1] == '{' && s[k] == '}');
    assert(digits_end(s, p + 1) == p + 1);
    lemma_brace_end(s, p + 2);
    assert forall|m: int| p + 2 <= m < k implies #[trigger] s[m] != '}' by {
        assert(s[m] == name[m - p - 2]);
    }
    assert(brace_end(s, p + 2) == k);
    assert(s.subrange(p + 2, k) =~= name);
    assert(s.subrange(p + 1, p + 1) =~= Seq::<char>::empty());
    assert(piece_end(s, p) == k + 1);
    assert(s.subrange(p, k + 1) =~= d);
    assert(plain(s, 0, p)) by {
        assert forall|m: int| 0 <= m < p implies #[trigger] s[m] != '%' by {
            assert(s[m] == a[m]);
        }
    }
    assert(plain(s, k + 1, s.len() as int)) by {
        assert forall|m: int| k + 1 <= m < s.len() implies #[trigger] s[m] != '%' by {
            assert(s[m] == b[m - k - 1]);
        }
    }
    lemma_one_literal_piece(s, p, d);
    assert(s.subrange(0, p) =~= a);
    assert(s.subrange(k + 1, s.len() as int) =~= b);
    assert(a + d + b =~= a + seq!['%', '{'] + name + seq!['}'] + b);
}

/// A one-character directive that selects nothing stays as its own text.
pub proof fn law_unknown_char_verbatim(a: Seq<char>, c: char, b: Seq<char>)
    requires
        plain(a, 0, a.len() as int),
        plain(b, 0, b.len() as int),
        c != '%',
        c != '{',
        !is_digit(c),
        short_token(c, None) is None,
    ensures
        compile(a + seq!['%', c] + b) == seq![TokenView::Text(a + seq!['%', c] + b)],
{
    let s = a + seq!['%', c] + b;
    let p = a.len() as int;
    assert(s[p] == '%' && s[p + 1] == c);
    assert(digits_end(s, p + 1) == p + 1);
    assert(s.subrange(p + 1, p + 1) =~= Seq::<char>::empty());
    assert(piece_end(s, p) == p + 2);
    assert(s.subrange(p, p + 2) =~= seq!['%', c]);
    assert(plain(s, 0, p)) by {
        assert forall|m: int| 0 <= m < p implies #[trigger] s[m] != '%' by {
            assert(s[m] == a[m]);
        }
    }
    assert(plain(s, p + 2, s.len() as int)) by {
        assert forall|m: int| p + 2 <= m < s.len() implies #[trigger] s[m] != '%' by {
            assert(s[m] == b[m - p - 2]);
        }
    }
    lemma_one_literal_piece(s, p, seq!['%', c]);
    assert(s.subrange(0, p) =~= a);
    assert(s.subrange(p + 2, s.len() as int) =~= b);
}

/// Every literal text is non-empty, and no two literal texts stand side by side.
pub open spec fn texts_joined(ts: Seq<TokenView>) -> bool {
    &&& forall|k: int| 0 <= k < ts.len() && #[trigger] ts[k] is Text ==> ts[k]->0.len() > 0
    &&& forall|k: int| 0 <= k && k + 1 < ts.len() ==> !(#[trigger] ts[k] is Text && ts[k + 1] is Text)
}

/// Every literal text is non-empty.
pub open spec fn texts_nonempty(ts: Seq<TokenView>) -> bool {
    forall|k: int| 0 <= k < ts.len() && #[trigger] ts[k] is Text ==> ts[k]->0.len() > 0
}

proof fn lemma_piece_text_nonempty(s: Seq<char>, i: int)
    requires
        0 <= i < s.len(),
    ensures
        piece_token(s, i) is Text ==> piece_token(s, i)->0.len() > 0,
{
    lemma_piece_end(s, i);
}

proof fn lemma_pieces_nonempty(s: Seq<char>, i: int)
    requires
        0 <= i <= s.len(),
    ensures
        texts_nonempty(pieces(s, i)),
    decreases s.len() - i,
{
    if i < s.len() {
        lemma_piece_end(s, i);
        lemma_piece_text_nonempty(s, i);
        let e = piece_end(s, i);
        lemma_pieces_nonempty(s, e);
        let ps = pieces(s, i);
        assert(ps == seq![piece_token(s, i)] + pieces(s, e));
        assert forall|k: int| 0 <= k < ps.len() && #[trigger] ps[k] is Text implies ps[k]->0.len()
            > 0 by {
            if k > 0 {
                assert(ps[k] == pieces(s, e)[k - 1]);
            }
        }
    }
}

proof fn lemma_join_text_joined(ts: Seq<TokenView>)
    requires
        texts_nonempty(ts),
    ensures
        texts_joined(join_text(ts)),
    decreases ts.len(),
{
    if ts.len() > 0 {
        let init = ts.drop_last();
        assert forall|k: int| 0 <= k < init.len() && #[trigger] init[k] is Text implies init[k]->0.len()
            > 0 by {
            assert(init[k] == ts[k]);
        }
        lemma_join_text_joined(init);
        let m = join_text(init);
        let r = join_text(ts);
        assert(ts[ts.len() - 1] == ts.last());
        if ts.last() is Text && m.len() > 0 && m.last() is Text {
            let d = m.drop_last();
            assert(r == d.push(TokenView::Text(m.last()->0 + ts.last()->0)));
            assert forall|k: int| 0 <= k && k + 1 < r.len() implies !(#[trigger] r[k] is Text && r[k
                + 1] is Text) by {
                assert(r[k] == m[k]);
                if k + 1 < d.len() {
                    assert(r[k + 1] == m[k + 1]);
                } else {
                    assert(m[k + 1] is Text);
                }
            }
            assert forall|k: int| 0 <= k < r.len() && #[trigger] r[k] is Text implies r[k]->0.len()
                > 0 by {
                if k < d.len() {
                    assert(r[k] == m[k]);
                }
            }
        } else {
            assert(r == m.push(ts.last()));
            assert forall|k: int| 0 <= k && k + 1 < r.len() implies !(#[trigger] r[k] is Text && r[k
                + 1] is Text) by {
                assert(r[k] == m[k]);
                if k + 1 < m.len() {
                    assert(r[k + 1] == m[k + 1]);
                }
            }
            assert forall|k: int| 0 <= k < r.len() && #[trigger] r[k] is Text implies r[k]->0.len()
                > 0 by {
                if k < m.len() {
                    assert(r[k] == m[k]);
                }
            }
        }
    }
}

/// A compiled template holds no empty literal, and consecutive literal text
/// always stands in a single token.
pub proof fn law_compiled_texts_joined(s: Seq<char>)
    ensures
        texts_joined(compile(s)),
{
    lemma_pieces_nonempty(s, 0);
    lemma_join_text_joined(pieces(s, 0));
}

} // verus!
