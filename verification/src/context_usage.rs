//! The context usage line shown above the prompt: a progress bar, the
//! tokens used and the model's context window.
use vstd::prelude::*;
use vstd::string::*;
use crate::api::Usage;
use crate::text::{
    append_chars, append_str, decimal, decimal_chars, digit_char, str_chars, str_eq,
    string_from_chars, trim_end, trim_end_vec,
};

verus! {

pub const CONTEXT_PROGRESS_BAR_WIDTH: usize = 24;

pub const DEEPSEEK_V4_CONTEXT_WINDOW: u32 = 1_000_000;

/// A terminal control sequence's last character (`@` to `~`).
pub open spec fn is_csi_final(c: char) -> bool {
    '@' <= c && c <= '~'
}

/// What follows a control sequence's opening `ESC [`: the text after its
/// last character.
pub open spec fn skip_csi(t: Seq<char>) -> Seq<char>
    decreases t.len(),
{
    if t.len() == 0 {
        t
    } else if is_csi_final(t[0]) {
        t.skip(1)
    } else {
        skip_csi(t.skip(1))
    }
}

pub proof fn lemma_skip_csi_len(t: Seq<char>)
    ensures
        skip_csi(t).len() <= t.len(),
    decreases t.len(),
{
    if t.len() > 0 && !is_csi_final(t[0]) {
        lemma_skip_csi_len(t.skip(1));
    }
}

/// A text without its terminal control sequences (`ESC [` ... final
/// character): what a terminal shows of it, colours aside.
pub open spec fn strip_csi(s: Seq<char>) -> Seq<char>
    decreases s.len(),
{
    if s.len() == 0 {
        s
    } else if s.len() >= 2 && s[0] == '\x1b' && s[1] == '[' {
        proof {
            lemma_skip_csi_len(s.skip(2));
        }
        strip_csi(skip_csi(s.skip(2)))
    } else {
        seq![s[0]] + strip_csi(s.skip(1))
    }
}

/// A bar of the context width as the terminal shows it: `k` cells of `=`
/// then `-` up to 24 cells, between brackets.
pub open spec fn plain_bar(k: int) -> Seq<char> {
    "["@ + Seq::new(k as nat, |i: int| '=') + Seq::new((24 - k) as nat, |i: int| '-') + "]"@
}

/// A drawn bar at `position` of `length`: as the terminal shows it, 24 cells
/// of which the filled ones come first; none filled exactly when nothing
/// of a non-empty length is done, all filled when all is done (or the
/// length is empty).
pub open spec fn bar_drawn(text: Seq<char>, position: u64, length: u64) -> bool {
    exists|k: int|
        #![trigger plain_bar(k)]
        0 <= k <= 24 && strip_csi(text) == plain_bar(k) && (k == 0 <==> (length > 0 && position == 0))
            && ((length == 0 || position >= length) ==> k == 24)
}

/// Draws a progress bar with `indicatif` on an in-memory terminal of one
/// row and `columns` columns and returns the terminal's formatted contents;
/// `force_draw` draws the bar at its position.  `InMemoryTerm::new` asserts
/// that there is at least one column.
///
/// For the context bar's template `[{bar:24.<colour>}]` with the characters
/// `==-` on 26 columns, indicatif's `format_bar` writes `floor(f * 24)`
/// filled cells, one more (`=`) when `0 < f * 24` and fewer than 24 are
/// filled, and `-` for the rest, where `f` is the fraction done
/// (`ProgressState::fraction`: 1 for an empty length, 0 at position 0, else
/// `position / length` in `f32`, clamped to 1).  The in-memory terminal
/// gives back its one row with its colour codes and a closing `ESC [m`.
/// Whether colour codes appear depends on the environment, so only the text
/// that the terminal shows is stated.
#[verifier::external_body]
fn draw_indicatif_bar(
    used: u64,
    total: u64,
    template: &str,
    progress_chars: &str,
    columns: u16,
) -> (r: String)
    requires
        columns > 0,
        progress_chars@.len() >= 2,
        forall|i: int| 0 <= i < progress_chars@.len() ==> (progress_chars@[i] == '=' || progress_chars@[i] == '-'),
    ensures
        (exists|c: ContextUsageColor| template@ == bar_template(c)) && progress_chars@ == "==-"@ && columns == 26
            ==> bar_drawn(r@, used, total) && r@.len() > 0 && r@.last() == 'm',
{
    let term = indicatif::InMemoryTerm::new(1, columns);
    let target = indicatif::ProgressDrawTarget::term_like(Box::new(term.clone()));
    let style = match indicatif::ProgressStyle::with_template(template) {
        Ok(style) => style.progress_chars(progress_chars),
        Err(_) => return String::new(),
    };
    let bar = indicatif::ProgressBar::with_draw_target(Some(total), target);
    bar.set_style(style);
    bar.set_position(used);
    bar.force_draw();
    String::from_utf8_lossy(&term.contents_formatted()).into_owned()
}

/// A drawn bar without its trailing whitespace.
pub fn finish_bar(drawn: &str) -> (r: String)
    ensures
        r@ == trim_end(drawn@),
{
    let trimmed = trim_end_vec(str_chars(drawn).as_slice());
    string_from_chars(trimmed.as_slice())
}

#[derive(Debug, Clone, Copy, PartialEq, Eq, Structural)]
pub enum ContextUsageColor {
    Green,
    Yellow,
    Red,
}

/// Green below 40 % of the window, yellow up to 70 %, red above.
pub open spec fn spec_color(used: u32, total: u32) -> ContextUsageColor {
    if total == 0 || used * 100 < 40 * total {
        ContextUsageColor::Green
    } else if used * 100 <= 70 * total {
        ContextUsageColor::Yellow
    } else {
        ContextUsageColor::Red
    }
}

pub open spec fn spec_style_name(c: ContextUsageColor) -> Seq<char> {
    match c {
        ContextUsageColor::Green => "green"@,
        ContextUsageColor::Yellow => "yellow"@,
        ContextUsageColor::Red => "red"@,
    }
}

impl ContextUsageColor {
    pub fn for_usage(used_tokens: u32, total_tokens: u32) -> (c: Self)
        ensures
            c == spec_color(used_tokens, total_tokens),
    {
        let used = used_tokens as u64 * 100;
        if total_tokens == 0 || used < 40 * total_tokens as u64 {
            ContextUsageColor::Green
        } else if used <= 70 * total_tokens as u64 {
            ContextUsageColor::Yellow
        } else {
            ContextUsageColor::Red
        }
    }

    pub fn as_indicatif_style(self) -> (s: &'static str)
        ensures
            s@ == spec_style_name(self),
    {
        match self {
            ContextUsageColor::Green => "green",
            ContextUsageColor::Yellow => "yellow",
            ContextUsageColor::Red => "red",
        }
    }
}


/// The bar template: `[{bar:24.<color>}]`.
pub open spec fn bar_template(color: ContextUsageColor) -> Seq<char> {
    "[{bar:"@ + decimal(CONTEXT_PROGRESS_BAR_WIDTH as nat) + "."@ + spec_style_name(color) + "}]"@
}

/// What is handed to `indicatif` to draw a bar: the position and the
/// length, the template, the progress characters and the columns.
pub struct BarRequest {
    pub position: u64,
    pub length: u64,
    pub template: String,
    pub progress_chars: String,
    pub columns: u16,
}

/// The bar request of a usage: the usage (capped at the window) of the
/// window, in the usage's colour; 0 of 1 in green when the window is
/// unknown or zero.  Always `==-` on the bar's width plus two columns.
pub open spec fn spec_bar_request(used: u32, total: Option<u32>) -> (u64, u64, Seq<char>) {
    match total {
        Some(t) if t > 0 => (
            if used <= t {
                used as u64
            } else {
                t as u64
            },
            t as u64,
            bar_template(spec_color(used, t)),
        ),
        _ => (0, 1, bar_template(ContextUsageColor::Green)),
    }
}

pub fn bar_request(used_tokens: u32, total_tokens: Option<u32>) -> (r: BarRequest)
    ensures
        (r.position, r.length, r.template@) == spec_bar_request(used_tokens, total_tokens),
        r.progress_chars@ == "==-"@,
        r.columns == CONTEXT_PROGRESS_BAR_WIDTH + 2,
{
    let (position, length, color) = match total_tokens {
        Some(t) => if t > 0 {
            let color = ContextUsageColor::for_usage(used_tokens, t);
            let used = if used_tokens <= t {
                used_tokens
            } else {
                t
            };
            (used as u64, t as u64, color)
        } else {
            (0u64, 1u64, ContextUsageColor::Green)
        },
        None => (0u64, 1u64, ContextUsageColor::Green),
    };
    let mut template = str_chars("[{bar:");
    append_chars(&mut template, decimal_chars(CONTEXT_PROGRESS_BAR_WIDTH as u64).as_slice());
    append_str(&mut template, ".");
    append_str(&mut template, color.as_indicatif_style());
    append_str(&mut template, "}]");
    BarRequest {
        position,
        length,
        template: string_from_chars(template.as_slice()),
        progress_chars: String::from_str("==-"),
        columns: (CONTEXT_PROGRESS_BAR_WIDTH + 2) as u16,
    }
}

/// Draws a requested bar and drops its trailing whitespace.
pub fn draw_bar(request: &BarRequest) -> (r: String)
    requires
        request.progress_chars@ == "==-"@,
        request.columns > 0,
    ensures
        (exists|c: ContextUsageColor| request.template@ == bar_template(c)) && request.columns == 26
            ==> bar_drawn(r@, request.position, request.length),
{
    proof {
        reveal_strlit("==-");
    }
    let raw = draw_indicatif_bar(
        request.position,
        request.length,
        request.template.as_str(),
        request.progress_chars.as_str(),
        request.columns,
    );
    let r = finish_bar(raw.as_str());
    proof {
        if raw@.len() > 0 && raw@.last() == 'm' {
            assert(!crate::text::is_whitespace('m'));
            assert(trim_end(raw@) == raw@);
        }
    }
    r
}

/// `render_indicatif_progress_bar`: a bar at `used_tokens` of `total_tokens`
/// in a colour, drawn as `bar_request` asks.
pub fn render_indicatif_progress_bar(used_tokens: u32, total_tokens: u32, color: ContextUsageColor) -> (r:
    String)
    ensures
        bar_drawn(r@, used_tokens as u64, total_tokens as u64),
{
    let mut request = bar_request(used_tokens, Some(total_tokens));
    let mut template = str_chars("[{bar:");
    append_chars(&mut template, decimal_chars(CONTEXT_PROGRESS_BAR_WIDTH as u64).as_slice());
    append_str(&mut template, ".");
    append_str(&mut template, color.as_indicatif_style());
    append_str(&mut template, "}]");
    request.position = used_tokens as u64;
    request.length = total_tokens as u64;
    request.template = string_from_chars(template.as_slice());
    proof {
        assert(request.template@ == bar_template(color));
    }
    draw_bar(&request)
}

/// The bar of a usage as `spec_bar_request` asks for it.
pub open spec fn usage_bar(text: Seq<char>, used: u32, total: Option<u32>) -> bool {
    bar_drawn(text, spec_bar_request(used, total).0, spec_bar_request(used, total).1)
}

/// The bar for a usage, drawn from `bar_request(used_tokens, total_tokens)`.
pub fn render_progress_bar(used_tokens: u32, total_tokens: Option<u32>) -> (r: String)
    ensures
        usage_bar(r@, used_tokens, total_tokens),
{
    let request = bar_request(used_tokens, total_tokens);
    proof {
        let c = match total_tokens {
            Some(t) if t > 0 => spec_color(used_tokens, t),
            _ => ContextUsageColor::Green,
        };
        assert(request.template@ == bar_template(c));
    }
    draw_bar(&request)
}

/// Digits in groups of three, separated by commas.
pub open spec fn group_digits(d: Seq<char>) -> Seq<char>
    decreases d.len(),
{
    if d.len() <= 3 {
        d
    } else {
        group_digits(d.take(d.len() - 3)) + ","@ + d.skip(d.len() - 3)
    }
}

fn group_digits_exec(d: &[char]) -> (r: Vec<char>)
    ensures
        r@ == group_digits(d@),
    decreases d@.len(),
{
    if d.len() <= 3 {
        let mut r: Vec<char> = Vec::new();
        append_chars(&mut r, d);
        return r;
    }
    let head = crate::text::slice_vec(d, 0, d.len() - 3);
    let mut r = group_digits_exec(head.as_slice());
    append_str(&mut r, ",");
    let tail = crate::text::slice_vec(d, d.len() - 3, d.len());
    append_chars(&mut r, tail.as_slice());
    assert(d@.skip(d@.len() - 3) =~= tail@);
    r
}

/// `1234567` as `1,234,567`.
pub fn format_token_count(value: u32) -> (s: String)
    ensures
        s@ == group_digits(decimal(value as nat)),
{
    let d = decimal_chars(value as u64);
    string_from_chars(group_digits_exec(d.as_slice()).as_slice())
}

pub fn model_context_window_tokens(model: &str) -> (r: Option<u32>)
    ensures
        r == if model@ == "deepseek-v4-flash"@ || model@ == "deepseek-v4-pro"@ {
            Some(DEEPSEEK_V4_CONTEXT_WINDOW)
        } else {
            None::<u32>
        },
{
    if str_eq(model, "deepseek-v4-flash") || str_eq(model, "deepseek-v4-pro") {
        Some(DEEPSEEK_V4_CONTEXT_WINDOW)
    } else {
        None
    }
}

/// The percentage of the window used, in hundredths of a percent, rounded
/// to the nearest, an exact half to the even neighbour as `{:.2}` formats
/// it; 0 for an empty window.  This is exact arithmetic on the ratio: a
/// quotient computed in `f64` and then formatted can land on the other side
/// of a half (1 of 4000 tokens formats as 0.03% that way, 0.02% here).
pub open spec fn spec_percent_hundredths(used: u32, total: u32) -> int {
    if total == 0 {
        0
    } else {
        let q = (used * 10000) / (total as int);
        let r = (used * 10000) % (total as int);
        if 2 * r > total {
            q + 1
        } else if 2 * r < total {
            q
        } else {
            q + q % 2
        }
    }
}

/// `x.yz` from hundredths.
pub open spec fn two_decimals(h: nat) -> Seq<char> {
    decimal(h / 100) + "."@ + seq![digit_char((h % 100) / 10), digit_char(h % 10)]
}

#[derive(Debug, Clone, Copy)]
pub struct ContextUsage {
    pub used_tokens: u32,
    pub total_tokens: Option<u32>,
}

/// The usage line around a drawn bar: the bar, the tokens used and the
/// window with its percentage, or `unknown` for the window.
pub open spec fn spec_render_line(u: ContextUsage, bar: Seq<char>) -> Seq<char> {
    match u.total_tokens {
        Some(t) => "context> "@ + bar + " "@ + group_digits(
            decimal(u.used_tokens as nat),
        ) + " / "@ + group_digits(decimal(t as nat)) + " tokens ("@ + two_decimals(
            spec_percent_hundredths(u.used_tokens, t) as nat,
        ) + "%)"@,
        None => "context> "@ + bar + " "@ + group_digits(
            decimal(u.used_tokens as nat),
        ) + " / unknown tokens"@,
    }
}

impl ContextUsage {
    pub fn for_model(model: &str) -> (u: Self)
        ensures
            u.used_tokens == 0,
            u.total_tokens == if model@ == "deepseek-v4-flash"@ || model@ == "deepseek-v4-pro"@ {
                Some(DEEPSEEK_V4_CONTEXT_WINDOW)
            } else {
                None::<u32>
            },
    {
        ContextUsage { used_tokens: 0, total_tokens: model_context_window_tokens(model) }
    }

    /// The tokens used become the total of the last request.
    pub fn update_from_usage(&mut self, usage: &Usage)
        ensures
            final(self).used_tokens == usage.total_tokens,
            final(self).total_tokens == old(self).total_tokens,
    {
        self.used_tokens = usage.total_tokens;
    }

    pub fn percent_used(&self, total_tokens: u32) -> (h: u64)
        ensures
            h == spec_percent_hundredths(self.used_tokens, total_tokens),
    {
        if total_tokens == 0 {
            0
        } else {
            let n = self.used_tokens as u64 * 10000;
            let t = total_tokens as u64;
            let q = n / t;
            let r = n % t;
            if 2 * r > t {
                q + 1
            } else if 2 * r < t {
                q
            } else {
                q + q % 2
            }
        }
    }

    /// The usage line with the bar drawn for it.
    pub fn render_line(&self) -> (s: String)
        ensures
            exists|bar: Seq<char>| usage_bar(bar, self.used_tokens, self.total_tokens) && s@ == spec_render_line(*self, bar),
    {
        let bar = render_progress_bar(self.used_tokens, self.total_tokens);
        self.render_line_with_bar(bar.as_str())
    }

    /// The usage line around a drawn bar.
    pub fn render_line_with_bar(&self, bar: &str) -> (s: String)
        ensures
            s@ == spec_render_line(*self, bar@),
    {
        let mut v = str_chars("context> ");
        append_str(&mut v, bar);
        append_str(&mut v, " ");
        append_str(&mut v, format_token_count(self.used_tokens).as_str());
        match self.total_tokens {
            Some(t) => {
                append_str(&mut v, " / ");
                append_str(&mut v, format_token_count(t).as_str());
                append_str(&mut v, " tokens (");
                let h = self.percent_used(t);
                append_chars(&mut v, decimal_chars(h / 100).as_slice());
                append_str(&mut v, ".");
                v.push(digit_exec((h % 100) / 10));
                v.push(digit_exec(h % 10));
                append_str(&mut v, "%)");
            },
            None => {
                append_str(&mut v, " / unknown tokens");
            },
        }
        string_from_chars(v.as_slice())
    }
}

fn digit_exec(d: u64) -> (c: char)
    requires
        d < 10,
    ensures
        c == digit_char(d as nat),
{
    let cs = str_chars("0123456789");
    proof {
        reveal_strlit("0123456789");
    }
    cs[d as usize]
}

} // verus!
