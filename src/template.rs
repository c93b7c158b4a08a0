//! The visual display's template: the line that the bar-drawing widget
//! paints, in its own placeholder syntax (`{wide_bar}`, `{percent}` and so on).
use vstd::prelude::*;

use crate::decimal::{decimal, push_decimal};
use crate::format::{compile, parse_format_string, tokens_view, FormatToken, TokenView};
use crate::report::{join_spaced, strings_view};
use crate::report::join_with_spaces;

verus! {

/// The display settings that the visual template depends on.
pub struct DisplayOptions {
    /// The name label, if any.
    pub name: Option<String>,
    pub timer: bool,
    pub bytes: bool,
    pub rate: bool,
    pub average_rate: bool,
    pub eta: bool,
    pub fineta: bool,
    /// Whether lines rather than bytes are counted.
    pub line_mode: bool,
    /// Whether byte amounts are shown in SI units (powers of 1000).
    pub si: bool,
    /// Whether the expected total is known.
    pub size_known: bool,
    /// A fixed bar width, if any.
    pub width: Option<u64>,
}

pub open spec fn pos_name(line_mode: bool, si: bool) -> Seq<char> {
    if line_mode {
        "{pos}"@
    } else if si {
        "{decimal_bytes}"@
    } else {
        "{bytes}"@
    }
}

pub open spec fn len_name(line_mode: bool, si: bool) -> Seq<char> {
    if line_mode {
        "{len}"@
    } else if si {
        "{decimal_total_bytes}"@
    } else {
        "{total_bytes}"@
    }
}

pub open spec fn per_sec_name(line_mode: bool, si: bool) -> Seq<char> {
    if line_mode {
        "{per_sec}"@
    } else if si {
        "{decimal_bytes_per_sec}"@
    } else {
        "{bytes_per_sec}"@
    }
}

/// The position, followed by the total where it is known.
pub open spec fn amount_text(line_mode: bool, si: bool, size_known: bool) -> Seq<char> {
    if size_known {
        pos_name(line_mode, si) + "/"@ + len_name(line_mode, si)
    } else {
        pos_name(line_mode, si)
    }
}

/// What a token becomes in the visual template.
pub open spec fn visual_piece(
    t: TokenView,
    line_mode: bool,
    si: bool,
    size_known: bool,
    name: Option<Seq<char>>,
) -> Seq<char> {
    match t {
        TokenView::Text(x) => x,
        TokenView::Progress { width } => match width {
            Some(w) => "{bar:"@ + decimal(w as nat) + "} {percent}%"@,
            None => "{wide_bar} {percent}%"@,
        },
        TokenView::ProgressBarOnly { width } => match width {
            Some(w) => "{bar:"@ + decimal(w as nat) + "}"@,
            None => "{wide_bar}"@,
        },
        TokenView::ProgressAmountOnly => "{percent}%"@,
        TokenView::Timer => "{elapsed_precise}"@,
        TokenView::Eta | TokenView::Fineta => "{eta_precise}"@,
        TokenView::Rate | TokenView::AverageRate => per_sec_name(line_mode, si),
        TokenView::Bytes => amount_text(line_mode, si, size_known),
        TokenView::Name => match name {
            Some(n) => n + ": "@,
            None => Seq::empty(),
        },
    }
}

/// The visual template of a token sequence: the pieces run together.
pub open spec fn visual_template_of(
    ts: Seq<TokenView>,
    line_mode: bool,
    si: bool,
    size_known: bool,
    name: Option<Seq<char>>,
) -> Seq<char>
    decreases ts.len(),
{
    if ts.len() == 0 {
        Seq::empty()
    } else {
        visual_template_of(ts.drop_last(), line_mode, si, size_known, name) + visual_piece(
            ts.last(),
            line_mode,
            si,
            size_known,
            name,
        )
    }
}

/// Whether any of the display flags is set.
pub open spec fn any_flag(o: DisplayOptions) -> bool {
    o.timer || o.bytes || o.rate || o.average_rate || o.eta || o.fineta
}

/// The parts of the template that the display flags ask for, in order: name,
/// timer, bar, amount, rate, eta.
pub open spec fn flag_template_parts(o: DisplayOptions) -> Seq<Seq<char>> {
    let named: Seq<Seq<char>> = match o.name {
        Some(n) => seq![n@],
        None => Seq::empty(),
    };
    let timed = if o.timer {
        named.push("{elapsed_precise}"@)
    } else {
        named
    };
    let barred = match o.width {
        Some(w) => timed.push("{bar:"@ + decimal(w as nat) + "} {percent}"@),
        None => timed.push("{wide_bar} {percent}%"@),
    };
    let counted = if o.bytes {
        barred.push(amount_text(o.line_mode, o.si, o.size_known))
    } else {
        barred
    };
    let rated = if o.rate || o.average_rate {
        counted.push(per_sec_name(o.line_mode, o.si))
    } else {
        counted
    };
    if o.eta || o.fineta {
        rated.push("{eta_precise}"@)
    } else {
        rated
    }
}

/// The template used when no display flag is set.
pub open spec fn fallback_template(line_mode: bool, si: bool) -> Seq<char> {
    "{elapsed} {wide_bar} {percent}% "@ + pos_name(line_mode, si) + "/"@ + len_name(line_mode, si)
        + " "@ + per_sec_name(line_mode, si) + " {eta}"@
}

/// The visual template built from the display flags.
pub open spec fn flag_template(o: DisplayOptions) -> Seq<char> {
    if any_flag(o) {
        join_spaced(flag_template_parts(o))
    } else {
        fallback_template(o.line_mode, o.si)
    }
}

impl DisplayOptions {
    pub open spec fn name_spec(&self) -> Option<Seq<char>> {
        match self.name {
            Some(n) => Some(n@),
            None => None,
        }
    }
}

fn pos_str(line_mode: bool, si: bool) -> (r: &'static str)
    ensures
        r@ == pos_name(line_mode, si),
{
    if line_mode {
        "{pos}"
    } else if si {
        "{decimal_bytes}"
    } else {
        "{bytes}"
    }
}

fn len_str(line_mode: bool, si: bool) -> (r: &'static str)
    ensures
        r@ == len_name(line_mode, si),
{
    if line_mode {
        "{len}"
    } else if si {
        "{decimal_total_bytes}"
    } else {
        "{total_bytes}"
    }
}

fn per_sec_str(line_mode: bool, si: bool) -> (r: &'static str)
    ensures
        r@ == per_sec_name(line_mode, si),
{
    if line_mode {
        "{per_sec}"
    } else if si {
        "{decimal_bytes_per_sec}"
    } else {
        "{bytes_per_sec}"
    }
}

fn push_amount(out: &mut String, line_mode: bool, si: bool, size_known: bool)
    ensures
        final(out)@ == old(out)@ + amount_text(line_mode, si, size_known),
{
    out.append(pos_str(line_mode, si));
    if size_known {
        out.append("/");
        out.append(len_str(line_mode, si));
    }
}

/// Appends `{bar:W}` and then `tail` to `out`.
fn push_fixed_bar(out: &mut String, w: u64, tail: &str)
    ensures
        final(out)@ == old(out)@ + ("{bar:"@ + decimal(w as nat) + tail@),
{
    out.append("{bar:");
    push_decimal(out, w as u128);
    out.append(tail);
}

/// Builds the visual template for a compiled custom template.
pub fn build_indicatif_template(tokens: &Vec<FormatToken>, conf: &DisplayOptions) -> (r: String)
    ensures
        r@ == visual_template_of(
            tokens_view(tokens@),
            conf.line_mode,
            conf.si,
            conf.size_known,
            conf.name_spec(),
        ),
{
    let mut out = String::new();
    let mut i: usize = 0;
    while i < tokens.len()
        invariant
            i <= tokens@.len(),
            out@ == visual_template_of(
                tokens_view(tokens@).take(i as int),
                conf.line_mode,
                conf.si,
                conf.size_known,
                conf.name_spec(),
            ),
        decreases tokens@.len() - i,
    {
        let ghost before = out@;
        assert(tokens_view(tokens@).take(i + 1).drop_last() =~= tokens_view(tokens@).take(
            i as int,
        ));
        match &tokens[i] {
            FormatToken::Text(text) => out.append(text.as_str()),
            FormatToken::Progress { width } => match width {
                Some(w) => push_fixed_bar(&mut out, *w as u64, "} {percent}%"),
                None => out.append("{wide_bar} {percent}%"),
            },
            FormatToken::ProgressBarOnly { width } => match width {
                Some(w) => push_fixed_bar(&mut out, *w as u64, "}"),
                None => out.append("{wide_bar}"),
            },
            FormatToken::ProgressAmountOnly => out.append("{percent}%"),
            FormatToken::Timer => out.append("{elapsed_precise}"),
            FormatToken::Eta | FormatToken::Fineta => out.append("{eta_precise}"),
            FormatToken::Rate | FormatToken::AverageRate => out.append(per_sec_str(conf.line_mode, conf.si)),
            FormatToken::Bytes => push_amount(&mut out, conf.line_mode, conf.si, conf.size_known),
            FormatToken::Name => {
                match &conf.name {
                    Some(name) => {
                        out.append(name.as_str());
                        out.append(": ");
                    },
                    None => {},
                }
            },
        }
        assert(out@ =~= before + visual_piece(
            tokens@[i as int]@,
            conf.line_mode,
            conf.si,
            conf.size_known,
            conf.name_spec(),
        ));
        i = i + 1;
    }
    assert(tokens_view(tokens@).take(i as int) =~= tokens_view(tokens@));
    out
}

/// The template used when no display flag is set.
fn fallback_string(line_mode: bool, si: bool) -> (r: String)
    ensures
        r@ == fallback_template(line_mode, si),
{
    let mut out = String::new();
    out.append("{elapsed} {wide_bar} {percent}% ");
    out.append(pos_str(line_mode, si));
    out.append("/");
    out.append(len_str(line_mode, si));
    out.append(" ");
    out.append(per_sec_str(line_mode, si));
    out.append(" {eta}");
    out
}

/// The parts of the template that the display flags ask for.
fn flag_parts_strings(conf: &DisplayOptions) -> (r: Vec<String>)
    ensures
        strings_view(r@) == flag_template_parts(*conf),
{
    let mut parts: Vec<String> = Vec::new();
    match &conf.name {
        Some(n) => parts.push(n.clone()),
        None => {},
    }
    if conf.timer {
        parts.push(String::from_str("{elapsed_precise}"));
    }
    match conf.width {
        Some(w) => {
            let mut bar = String::new();
            push_fixed_bar(&mut bar, w, "} {percent}");
            parts.push(bar);
        },
        None => parts.push(String::from_str("{wide_bar} {percent}%")),
    }
    if conf.bytes {
        let mut amount = String::new();
        push_amount(&mut amount, conf.line_mode, conf.si, conf.size_known);
        parts.push(amount);
    }
    if conf.rate || conf.average_rate {
        parts.push(String::from_str(per_sec_str(conf.line_mode, conf.si)));
    }
    if conf.eta || conf.fineta {
        parts.push(String::from_str("{eta_precise}"));
    }
    assert(strings_view(parts@) =~= flag_template_parts(*conf));
    parts
}

/// Builds the visual template from the display flags alone.
pub fn flags_template(conf: &DisplayOptions) -> (r: String)
    ensures
        r@ == flag_template(*conf),
{
    if !(conf.timer || conf.bytes || conf.rate || conf.average_rate || conf.eta || conf.fineta) {
        return fallback_string(conf.line_mode, conf.si);
    }
    let parts = flag_parts_strings(conf);
    join_with_spaces(&parts)
}

/// How progress is shown.
#[derive(Debug, Clone, Copy, PartialEq, Eq, Structural)]
pub enum DisplayMode {
    /// A bar redrawn in place.
    Visual,
    /// Plain numeric lines on the error stream.
    Numeric,
    /// Nothing at all.
    Quiet,
}

/// The display mode for the given switches: quiet wins over numeric.
pub fn display_mode(quiet: bool, numeric: bool) -> (r: DisplayMode)
    ensures
        r == if quiet {
            DisplayMode::Quiet
        } else if numeric {
            DisplayMode::Numeric
        } else {
            DisplayMode::Visual
        },
{
    if quiet {
        DisplayMode::Quiet
    } else if numeric {
        DisplayMode::Numeric
    } else {
        DisplayMode::Visual
    }
}

/// The visual template: compiled from the custom template where one is
/// given, else built from the display flags.
pub fn visual_template(conf: &DisplayOptions, format: Option<&str>) -> (r: String)
    ensures
        r@ == match format {
            Some(f) => visual_template_of(
                compile(f@),
                conf.line_mode,
                conf.si,
                conf.size_known,
                conf.name_spec(),
            ),
            None => flag_template(*conf),
        },
{
    match format {
        Some(f) => {
            let tokens = parse_format_string(f);
            build_indicatif_template(&tokens, conf)
        },
        None => flags_template(conf),
    }
}

} // verus!
