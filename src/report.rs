//! The numeric reporter: the plain-text progress line that numeric mode
//! writes, and how often it is written.
use vstd::prelude::*;

use crate::decimal::{decimal, decimal_string, digit_char, push_decimal};
use crate::format::{tokens_view, FormatToken, TokenView};
use crate::limiter::NANOS_PER_SEC;

verus! {

/// Numeric lines are written at most this often, but for the first and the last.
pub const MIN_REPORT_INTERVAL_NANOS: u128 = 100_000_000;

/// What the progress counter shows at one moment.
#[derive(Debug, Clone, Copy)]
pub struct Snapshot {
    /// Units transferred so far.
    pub position: u64,
    /// Expected units in all, if known.
    pub length: Option<u64>,
    /// Nanoseconds since the transfer started.
    pub elapsed_nanos: u128,
}

/// The elapsed time in tenths of a second, rounded to the nearest.
pub open spec fn tenths_of(elapsed: u128) -> nat {
    (elapsed / 100_000_000 + if elapsed % 100_000_000 >= 50_000_000 {
        1int
    } else {
        0int
    }) as nat
}

/// The elapsed time in seconds with one decimal, such as `12.3`.
pub open spec fn timer_text(elapsed: u128) -> Seq<char> {
    decimal(tenths_of(elapsed) / 10) + seq!['.', digit_char(tenths_of(elapsed) % 10)]
}

/// Units per second since the start, rounded down (0 before any time has
/// passed, `u64::MAX` at most).
pub open spec fn rate_of(s: Snapshot) -> nat {
    if s.elapsed_nanos == 0 {
        0
    } else if s.position * NANOS_PER_SEC / s.elapsed_nanos as int <= u64::MAX {
        (s.position * NANOS_PER_SEC / s.elapsed_nanos as int) as nat
    } else {
        u64::MAX as nat
    }
}

/// The percentage done, rounded down: 0 for a length of 0, and the position
/// itself when the length is unknown.
pub open spec fn percent_of(s: Snapshot) -> nat {
    match s.length {
        Some(l) => if l > 0 {
            (s.position * 100 / l as int) as nat
        } else {
            0
        },
        None => s.position as nat,
    }
}

/// What a token shows in a numeric line; eta and name show nothing.
pub open spec fn token_value(t: TokenView, s: Snapshot) -> Option<Seq<char>> {
    match t {
        TokenView::Text(x) => Some(x),
        TokenView::Timer => Some(timer_text(s.elapsed_nanos)),
        TokenView::Bytes => Some(decimal(s.position as nat)),
        TokenView::Rate | TokenView::AverageRate => Some(decimal(rate_of(s))),
        TokenView::Progress { .. } | TokenView::ProgressBarOnly { .. } | TokenView::ProgressAmountOnly => {
            Some(decimal(percent_of(s)))
        },
        TokenView::Eta | TokenView::Fineta | TokenView::Name => None,
    }
}

/// The values of the tokens, one after the other.
pub open spec fn tokens_line(ts: Seq<TokenView>, s: Snapshot) -> Seq<char>
    decreases ts.len(),
{
    if ts.len() == 0 {
        Seq::empty()
    } else {
        tokens_line(ts.drop_last(), s) + match token_value(ts.last(), s) {
            Some(v) => v,
            None => Seq::empty(),
        }
    }
}

/// The parts, separated by single spaces.
pub open spec fn join_spaced(parts: Seq<Seq<char>>) -> Seq<char>
    decreases parts.len(),
{
    if parts.len() == 0 {
        Seq::empty()
    } else if parts.len() == 1 {
        parts[0]
    } else {
        join_spaced(parts.drop_last()) + seq![' '] + parts.last()
    }
}

/// The parts of a numeric line without a template: elapsed time, position
/// and rate as asked for, or else the percentage.
pub open spec fn flag_parts(timer: bool, bytes: bool, rate: bool, s: Snapshot) -> Seq<Seq<char>> {
    let timed: Seq<Seq<char>> = if timer {
        seq![timer_text(s.elapsed_nanos)]
    } else {
        Seq::empty()
    };
    let counted = if bytes {
        timed.push(decimal(s.position as nat))
    } else {
        timed
    };
    let rated = if rate {
        counted.push(decimal(rate_of(s)))
    } else {
        counted
    };
    if !timer && !bytes && !rate {
        rated.push(decimal(percent_of(s)))
    } else {
        rated
    }
}

/// What numeric mode shows: the tokens' values run together, or the flag
/// parts separated by spaces.
pub open spec fn numeric_line_of(
    timer: bool,
    bytes: bool,
    rate: bool,
    tokens: Option<Seq<TokenView>>,
    s: Snapshot,
) -> Seq<char> {
    match tokens {
        Some(ts) => tokens_line(ts, s),
        None => join_spaced(flag_parts(timer, bytes, rate, s)),
    }
}

pub open spec fn opt_text(o: Option<String>) -> Option<Seq<char>> {
    match o {
        Some(v) => Some(v@),
        None => None,
    }
}

pub open spec fn strings_view(v: Seq<String>) -> Seq<Seq<char>> {
    v.map_values(|x: String| x@)
}

/// The elapsed time in seconds with one decimal.
pub fn timer_string(elapsed: u128) -> (r: String)
    ensures
        r@ == timer_text(elapsed),
{
    let t: u128 = elapsed / 100_000_000 + if elapsed % 100_000_000 >= 50_000_000 {
        1
    } else {
        0
    };
    let mut out = decimal_string(t / 10);
    proof {
        reveal_strlit(".");
    }
    out.append(".");
    push_decimal(&mut out, t % 10);
    assert(out@ =~= timer_text(elapsed));
    out
}

/// Units per second since the start.
pub fn rate_value(s: &Snapshot) -> (r: u64)
    ensures
        r == rate_of(*s),
{
    if s.elapsed_nanos == 0 {
        return 0;
    }
    assert(s.position * NANOS_PER_SEC <= u64::MAX * NANOS_PER_SEC) by (nonlinear_arith)
        requires
            s.position <= u64::MAX,
    ;
    let r: u128 = (s.position as u128) * NANOS_PER_SEC / s.elapsed_nanos;
    if r <= u64::MAX as u128 {
        r as u64
    } else {
        u64::MAX
    }
}

/// The percentage done, or the position when the length is unknown.
pub fn percent_value(s: &Snapshot) -> (r: u128)
    ensures
        r == percent_of(*s),
{
    match s.length {
        Some(l) => {
            if l > 0 {
                (s.position as u128) * 100 / (l as u128)
            } else {
                0
            }
        },
        None => s.position as u128,
    }
}

/// What `token` shows in a numeric line.
pub fn token_numeric_value(token: &FormatToken, s: &Snapshot) -> (r: Option<String>)
    ensures
        opt_text(r) == token_value(token@, *s),
{
    match token {
        FormatToken::Text(x) => Some(x.clone()),
        FormatToken::Timer => Some(timer_string(s.elapsed_nanos)),
        FormatToken::Bytes => Some(decimal_string(s.position as u128)),
        FormatToken::Rate | FormatToken::AverageRate => Some(decimal_string(rate_value(s) as u128)),
        FormatToken::Progress { .. }
        | FormatToken::ProgressBarOnly { .. }
        | FormatToken::ProgressAmountOnly => Some(decimal_string(percent_value(s))),
        FormatToken::Eta | FormatToken::Fineta | FormatToken::Name => None,
    }
}

/// The values of `tokens`, run together.
pub fn tokens_numeric_line(tokens: &Vec<FormatToken>, s: &Snapshot) -> (r: String)
    ensures
        r@ == tokens_line(tokens_view(tokens@), *s),
{
    let mut out = String::new();
    let mut i: usize = 0;
    while i < tokens.len()
        invariant
            i <= tokens@.len(),
            out@ == tokens_line(tokens_view(tokens@).take(i as int), *s),
        decreases tokens@.len() - i,
    {
        let ghost done = tokens_view(tokens@).take(i as int);
        assert(tokens_view(tokens@).take(i + 1).drop_last() =~= done);
        match token_numeric_value(&tokens[i], s) {
            Some(v) => {
                out.append(v.as_str());
            },
            None => {
                assert(out@ + Seq::<char>::empty() =~= out@);
            },
        }
        i = i + 1;
    }
    assert(tokens_view(tokens@).take(i as int) =~= tokens_view(tokens@));
    out
}

/// The parts, separated by single spaces.
pub fn join_with_spaces(parts: &Vec<String>) -> (r: String)
    ensures
        r@ == join_spaced(strings_view(parts@)),
{
    let mut out = String::new();
    let mut i: usize = 0;
    proof {
        reveal_strlit(" ");
    }
    while i < parts.len()
        invariant
            i <= parts@.len(),
            out@ == join_spaced(strings_view(parts@).take(i as int)),
            " "@ == seq![' '],
        decreases parts@.len() - i,
    {
        let ghost done = strings_view(parts@).take(i as int);
        assert(strings_view(parts@).take(i + 1).drop_last() =~= done);
        if i > 0 {
            out.append(" ");
        } else {
            assert(out@ =~= Seq::<char>::empty());
        }
        out.append(parts[i].as_str());
        i = i + 1;
    }
    assert(strings_view(parts@).take(i as int) =~= strings_view(parts@));
    out
}

/// What numeric mode shows, and how.
pub struct NumericConfig {
    pub show_timer: bool,
    pub show_bytes: bool,
    pub show_rate: bool,
    /// The compiled custom template, if one was given.
    pub tokens: Option<Vec<FormatToken>>,
}

impl NumericConfig {
    pub open spec fn tokens_spec(&self) -> Option<Seq<TokenView>> {
        match self.tokens {
            Some(ts) => Some(tokens_view(ts@)),
            None => None,
        }
    }

    /// The numeric line for the snapshot `s`.
    pub fn numeric_line(&self, s: &Snapshot) -> (r: String)
        ensures
            r@ == numeric_line_of(
                self.show_timer,
                self.show_bytes,
                self.show_rate,
                self.tokens_spec(),
                *s,
            ),
    {
        match &self.tokens {
            Some(ts) => tokens_numeric_line(ts, s),
            None => {
                let mut parts: Vec<String> = Vec::new();
                let ghost s0 = *s;
                if self.show_timer {
                    parts.push(timer_string(s.elapsed_nanos));
                }
                if self.show_bytes {
                    parts.push(decimal_string(s.position as u128));
                }
                if self.show_rate {
                    parts.push(decimal_string(rate_value(s) as u128));
                }
                if !self.show_timer && !self.show_bytes && !self.show_rate {
                    parts.push(decimal_string(percent_value(s)));
                }
                assert(strings_view(parts@) =~= flag_parts(
                    self.show_timer,
                    self.show_bytes,
                    self.show_rate,
                    s0,
                ));
                join_with_spaces(&parts)
            },
        }
    }
}

/// When numeric lines are due.
pub struct ReportThrottle {
    /// Lines written so far (held at `u64::MAX` once it gets there).
    pub emitted: u64,
    /// When the last line was written, in nanoseconds since the start.
    pub last_nanos: u128,
}

impl ReportThrottle {
    pub fn new() -> (t: ReportThrottle)
        ensures
            t.emitted == 0,
            t.last_nanos == 0,
    {
        ReportThrottle { emitted: 0, last_nanos: 0 }
    }

    /// Whether a line is due after a chunk, `now` nanoseconds after the start:
    /// the first always is, later ones once the minimum interval has passed.
    /// A line that is due is taken as written.
    pub fn after_chunk(&mut self, now: u128) -> (due: bool)
        ensures
            due == (old(self).emitted == 0 || (now >= old(self).last_nanos && now
                - old(self).last_nanos >= MIN_REPORT_INTERVAL_NANOS)),
            due ==> final(self).last_nanos == now && final(self).emitted == if old(self).emitted
                < u64::MAX {
                old(self).emitted + 1
            } else {
                u64::MAX as int
            },
            !due ==> *final(self) == *old(self),
    {
        let due = self.emitted == 0 || (now >= self.last_nanos && now - self.last_nanos
            >= MIN_REPORT_INTERVAL_NANOS);
        if due {
            self.emitted = self.emitted.saturating_add(1);
            self.last_nanos = now;
        }
        due
    }

    /// Whether a line is due when the transfer ends: always, so that even an
    /// empty input gets one line, which shows the final position.
    pub fn at_end(&mut self, now: u128) -> (due: bool)
        ensures
            due,
            final(self).last_nanos == now,
            final(self).emitted == if old(self).emitted < u64::MAX {
                old(self).emitted + 1
            } else {
                u64::MAX as int
            },
    {
        self.emitted = self.emitted.saturating_add(1);
        self.last_nanos = now;
        true
    }
}

/// Without a template, a numeric line is never empty: with no flag it is the
/// percentage (the position itself when the length is unknown), and with
/// only the count flag it is the position.
pub proof fn law_numeric_line_shows_position(s: Snapshot)
    ensures
        numeric_line_of(false, false, false, None, s) == decimal(percent_of(s)),
        numeric_line_of(false, true, false, None, s) == decimal(s.position as nat),
        decimal(percent_of(s)).len() > 0,
        decimal(s.position as nat).len() > 0,
        s.length is None ==> numeric_line_of(false, false, false, None, s) == decimal(
            s.position as nat,
        ),
{
    assert(flag_parts(false, false, false, s) =~= seq![decimal(percent_of(s))]);
    assert(flag_parts(false, true, false, s) =~= seq![decimal(s.position as nat)]);
    assert(decimal(percent_of(s)).len() > 0);
    assert(decimal(s.position as nat).len() > 0);
}

} // verus!
