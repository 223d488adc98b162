//! The progress line of a transfer: a bar, a percentage and a message,
//! bounded by the width of the terminal and drawn no more often than the
//! throttle allows.
use vstd::prelude::*;
use vstd::string::*;

use std::time::Duration;
use std::time::Instant;

use crate::shell::header_spec;
use crate::shell::Shell;
use crate::text::append_decimal;
use crate::text::append_repeated;
use crate::text::decimal_spec;
use crate::text::digit_char;
use crate::text::digit_str;
use crate::text::lemma_decimal_len;
use crate::text::repeat_spec;

verus! {

/// The columns kept free at the end of the line.
pub const RESERVED: usize = 15;

/// The milliseconds that pass before the first line is drawn.
pub const WARM_UP: u64 = 500;

/// The milliseconds that pass between two lines.
pub const INTERVAL: u64 = 100;

/// The columns that the `unicode-width` crate gives the character `c` on
/// a terminal, if it gives it any.
pub uninterp spec fn char_display_width(c: char) -> Option<usize>;

/// The columns that each character of `msg` takes: those that it is
/// given, and none where it is given none.
pub open spec fn widths_spec(msg: Seq<char>) -> Seq<usize> {
    Seq::new(
        msg.len(),
        |i: int|
            match char_display_width(msg[i]) {
                Some(w) => w,
                None => 0usize,
            },
    )
}

/// The width of a character as `UnicodeWidthChar::width` of the
/// `unicode-width` crate computes it from its tables: a function of the
/// character alone, which is all that is claimed of it here.
#[verifier::external_body]
fn char_width(c: char) -> (columns: Option<usize>)
    ensures
        columns == char_display_width(c),
{
    unicode_width::UnicodeWidthChar::width(c)
}

/// The length of the filled part of a bar of `width` columns when `cur`
/// of `max` items are done: the share of the width, rounded down, and
/// nothing where there are no items at all.
pub open spec fn fill_spec(width: nat, cur: nat, max: nat) -> nat {
    if max == 0 {
        0
    } else {
        width * cur / max
    }
}

/// The share of `cur` in `max` in hundredths of a percent, rounded to the
/// nearest, and nothing where there are no items at all.
pub open spec fn hundredths_spec(cur: nat, max: nat) -> nat {
    if max == 0 {
        0
    } else {
        (cur * 10000 + max / 2) / max
    }
}

/// A percentage given in hundredths, with two decimals, set to the right
/// in six columns.
pub open spec fn percent_text(hundredths: nat) -> Seq<char> {
    let whole = decimal_spec(hundredths / 100);
    repeat_spec(' ', (3 - whole.len()) as nat) + whole + "."@ + seq![
        digit_char(hundredths % 100 / 10),
        digit_char(hundredths % 10),
    ]
}

/// The percentage as it follows the bar: a space, the number, a percent
/// sign.
pub open spec fn stats_spec(cur: nat, max: nat) -> Seq<char> {
    " "@ + percent_text(hundredths_spec(cur, max)) + "%"@
}

/// The filled part of the bar: equals signs, the last of them an arrow
/// head while items are left.
pub open spec fn filled_spec(fill: nat, complete: bool) -> Seq<char> {
    if fill == 0 {
        Seq::empty()
    } else {
        repeat_spec('=', (fill - 1) as nat) + (if complete {
            "="@
        } else {
            ">"@
        })
    }
}

/// The bar of `display_width` columns between brackets, with the
/// percentage behind it.
pub open spec fn bar_spec(display_width: nat, cur: nat, max: nat) -> Seq<char> {
    let fill = fill_spec(display_width, cur, max);
    "["@ + filled_spec(fill, cur == max) + repeat_spec(' ', (display_width - fill) as nat) + "]"@
        + stats_spec(cur, max)
}

/// The columns that stand beside the bar itself: the percentage, the two
/// brackets and the reserve.
pub open spec fn extra_columns() -> nat {
    8 + 2 + 15
}

/// The bar for a line of `width` columns, if the width leaves room for one.
pub open spec fn progress_spec(width: nat, cur: nat, max: nat) -> Option<Seq<char>> {
    if width < extra_columns() {
        None
    } else {
        Some(bar_spec((width - extra_columns()) as nat, cur, max))
    }
}

/// The columns that the first `k` characters take, `widths` giving the
/// columns of each.
pub open spec fn columns(widths: Seq<usize>, k: int) -> nat
    decreases k,
{
    if k <= 0 {
        0
    } else {
        columns(widths, k - 1) + widths[k - 1] as nat
    }
}

/// The longest opening of the message, of at most `k` characters, that
/// leaves three of `avail` columns free for an ellipsis.
pub open spec fn kept_upto(widths: Seq<usize>, avail: nat, k: int) -> int
    decreases k,
{
    if k <= 0 {
        0
    } else if columns(widths, k) + 3 <= avail {
        k
    } else {
        kept_upto(widths, avail, k - 1)
    }
}

/// `prefix` followed by `msg` as far as a line of `max_width` columns has
/// room for it beside the reserve, `widths` giving the columns of each
/// character of `msg`. With three columns or fewer left the message is
/// dropped. A message that fits is kept whole. Of one that does not, the
/// longest opening stays that leaves room for an ellipsis, and the
/// ellipsis follows it. The prefix always stays.
pub open spec fn render_spec(
    prefix: Seq<char>,
    msg: Seq<char>,
    widths: Seq<usize>,
    max_width: nat,
) -> Seq<char> {
    let avail = max_width - prefix.len() - 15;
    if avail <= 3 {
        prefix
    } else if columns(widths, msg.len() as int) <= avail {
        prefix + msg
    } else {
        prefix + msg.take(kept_upto(widths, avail as nat, msg.len() as int)) + "..."@
    }
}

/// `line` filled up with spaces to `target` columns.
pub open spec fn pad_spec(line: Seq<char>, target: nat) -> Seq<char> {
    if line.len() < target {
        line + repeat_spec(' ', (target - line.len()) as nat)
    } else {
        line
    }
}

/// The filled part never outgrows the bar, and grows with the items done.
pub proof fn lemma_fill_monotone(width: nat, a: nat, b: nat, max: nat)
    requires
        a <= b <= max,
    ensures
        fill_spec(width, a, max) <= fill_spec(width, b, max) <= width,
        max > 0 ==> fill_spec(width, max, max) == width,
{
    if max > 0 {
        assert(width * a <= width * b <= width * max) by (nonlinear_arith)
            requires
                a <= b <= max,
        ;
        assert(width * a / max <= width * b / max) by (nonlinear_arith)
            requires
                width * a <= width * b,
                max > 0,
        ;
        assert(width * b / max <= width * max / max) by (nonlinear_arith)
            requires
                width * b <= width * max,
                max > 0,
        ;
        assert(width * max / max == width) by (nonlinear_arith)
            requires
                max > 0,
        ;
    }
}

/// A share is at most a hundred percent.
pub proof fn lemma_hundredths_bound(cur: nat, max: nat)
    requires
        cur <= max,
    ensures
        hundredths_spec(cur, max) <= 10000,
{
    if max > 0 {
        assert((cur * 10000 + max / 2) / max <= 10000) by (nonlinear_arith)
            requires
                cur <= max,
                max > 0,
        ;
    }
}

/// More characters take no fewer columns.
pub proof fn lemma_columns_grow(widths: Seq<usize>, a: int, b: int)
    requires
        a <= b,
    ensures
        columns(widths, a) <= columns(widths, b),
    decreases b - a,
{
    if a < b {
        lemma_columns_grow(widths, a, b - 1);
    }
}

/// What is kept before an ellipsis is an opening of the message that
/// leaves three columns free, and no longer opening does.
pub proof fn lemma_kept(widths: Seq<usize>, avail: nat, k: int)
    requires
        0 <= k,
        3 <= avail,
    ensures
        0 <= kept_upto(widths, avail, k) <= k,
        columns(widths, kept_upto(widths, avail, k)) + 3 <= avail,
        forall|j: int|
            kept_upto(widths, avail, k) < j <= k ==> #[trigger] columns(widths, j) + 3 > avail,
    decreases k,
{
    if k > 0 && columns(widths, k) + 3 > avail {
        lemma_kept(widths, avail, k - 1);
    }
}

/// Where no opening longer than `i` characters leaves three columns
/// free, what is kept of `n` characters is what is kept of `i`.
pub proof fn lemma_kept_stops(widths: Seq<usize>, avail: nat, i: int, n: int)
    requires
        0 <= i <= n,
        forall|j: int| i < j <= n ==> #[trigger] columns(widths, j) + 3 > avail,
    ensures
        kept_upto(widths, avail, n) == kept_upto(widths, avail, i),
    decreases n - i,
{
    if i < n {
        assert(columns(widths, n) + 3 > avail);
        lemma_kept_stops(widths, avail, i, n - 1);
    }
}

/// The shape of a rendered line. The prefix always opens it. Behind the
/// prefix stands nothing, where three columns or fewer are left; the
/// whole message, where it fits; else an opening of the message and an
/// ellipsis, which together take no more columns than are left.
pub proof fn lemma_render_shape(prefix: Seq<char>, msg: Seq<char>, widths: Seq<usize>, max_width: nat)
    requires
        prefix.len() + 15 <= max_width,
    ensures
        ({
            let avail = max_width - prefix.len() - 15;
            let line = render_spec(prefix, msg, widths, max_width);
            let kept = kept_upto(widths, avail as nat, msg.len() as int);
            &&& line.len() >= prefix.len()
            &&& line.take(prefix.len() as int) == prefix
            &&& avail <= 3 ==> line == prefix
            &&& avail > 3 && columns(widths, msg.len() as int) <= avail ==> line == prefix + msg
            &&& avail > 3 && columns(widths, msg.len() as int) > avail ==> {
                &&& 0 <= kept < msg.len()
                &&& line == prefix + msg.take(kept) + "..."@
                &&& columns(widths, kept) + 3 <= avail
            }
        }),
{
    let avail = max_width - prefix.len() - 15;
    let line = render_spec(prefix, msg, widths, max_width);
    let n = msg.len() as int;
    if avail > 3 {
        lemma_kept(widths, avail as nat, n);
        if columns(widths, n) > avail {
            let kept = kept_upto(widths, avail as nat, n);
            assert(line.take(prefix.len() as int) =~= prefix);
        } else {
            assert(line.take(prefix.len() as int) =~= prefix);
        }
    } else {
        assert(line.take(prefix.len() as int) =~= prefix);
    }
}

/// The bar with its brackets and percentage is ten columns longer than
/// the bar alone.
pub proof fn lemma_bar_len(display_width: nat, cur: nat, max: nat)
    requires
        cur <= max,
    ensures
        bar_spec(display_width, cur, max).len() == display_width + 10,
{
    lemma_fill_monotone(display_width, cur, cur, max);
    lemma_hundredths_bound(cur, max);
    let h = hundredths_spec(cur, max);
    lemma_decimal_len(h / 100);
    reveal_strlit("[");
    reveal_strlit("]");
    reveal_strlit(" ");
    reveal_strlit("%");
    reveal_strlit(".");
    reveal_strlit("=");
    reveal_strlit(">");
}

/// The length of the filled part of a bar of `display_width` columns.
pub fn fill(display_width: usize, cur: usize, max: usize) -> (hashes: usize)
    requires
        cur <= max,
    ensures
        hashes == fill_spec(display_width as nat, cur as nat, max as nat),
        hashes <= display_width,
{
    if max == 0 {
        return 0;
    }
    proof {
        lemma_fill_monotone(display_width as nat, cur as nat, cur as nat, max as nat);
        assert(display_width * cur <= 0xffff_ffff_ffff_ffff * 0xffff_ffff_ffff_ffff)
            by (nonlinear_arith)
            requires
                display_width <= 0xffff_ffff_ffff_ffff,
                cur <= 0xffff_ffff_ffff_ffff,
        ;
    }
    (display_width as u128 * cur as u128 / max as u128) as usize
}

/// The share of `cur` in `max` in hundredths of a percent.
pub fn hundredths(cur: usize, max: usize) -> (share: u64)
    requires
        cur <= max,
    ensures
        share == hundredths_spec(cur as nat, max as nat),
        share <= 10000,
{
    if max == 0 {
        return 0;
    }
    proof {
        lemma_hundredths_bound(cur as nat, max as nat);
    }
    ((cur as u128 * 10000 + max as u128 / 2) / max as u128) as u64
}

/// Appends the filled part of a bar to `text`.
fn append_filled(text: &mut String, hashes: usize, complete: bool)
    ensures
        final(text)@ == old(text)@ + filled_spec(hashes as nat, complete),
{
    if hashes > 0 {
        proof {
            reveal_strlit("=");
        }
        append_repeated(text, "=", hashes - 1);
        if complete {
            text.append("=");
        } else {
            text.append(">");
        }
        assert(text@ =~= old(text)@ + filled_spec(hashes as nat, complete));
    } else {
        assert(text@ =~= old(text)@ + filled_spec(hashes as nat, complete));
    }
}

/// Appends a percentage given in hundredths to `text`.
fn append_percent(text: &mut String, hundredths: u64)
    requires
        hundredths <= 10000,
    ensures
        final(text)@ == old(text)@ + percent_text(hundredths as nat),
{
    let whole: u64 = hundredths / 100;
    proof {
        lemma_decimal_len(whole as nat);
        reveal_strlit(" ");
    }
    let pad: usize = if whole < 10 {
        2
    } else if whole < 100 {
        1
    } else {
        0
    };
    append_repeated(text, " ", pad);
    append_decimal(text, whole);
    text.append(".");
    text.append(digit_str(hundredths % 100 / 10));
    text.append(digit_str(hundredths % 10));
    assert(text@ =~= old(text)@ + percent_text(hundredths as nat));
}

/// The columns that each character of `msg` takes.
pub fn message_widths(msg: &str) -> (widths: Vec<usize>)
    ensures
        widths@ == widths_spec(msg@),
{
    let n: usize = msg.unicode_len();
    let mut widths: Vec<usize> = Vec::new();
    let mut i: usize = 0;
    while i < n
        invariant
            i <= n,
            n == msg@.len(),
            widths@.len() == i,
            forall|k: int| 0 <= k < i ==> widths@[k] == widths_spec(msg@)[k],
        decreases n - i,
    {
        let w: usize = match char_width(msg.get_char(i)) {
            Some(w) => w,
            None => 0,
        };
        widths.push(w);
        i = i + 1;
    }
    assert(widths@ =~= widths_spec(msg@));
    widths
}

/// The widths that bound a line.
#[derive(Debug, Clone, Copy, PartialEq, Eq, Structural)]
pub struct Format {
    /// The width of the terminal.
    pub max_width: usize,
    /// The most columns that a line with its reserve may take.
    pub max_print: usize,
}

impl Format {
    /// The width that a line is laid out for: that of the terminal, but no
    /// more than may be printed.
    pub open spec fn width_spec(self) -> nat {
        if self.max_width <= self.max_print {
            self.max_width as nat
        } else {
            self.max_print as nat
        }
    }

    /// The width that a line is laid out for.
    pub fn width(&self) -> (columns: usize)
        ensures
            columns == self.width_spec(),
    {
        if self.max_width <= self.max_print {
            self.max_width
        } else {
            self.max_print
        }
    }

    /// The bar and the percentage for `cur` of `max` items done, or
    /// nothing where the width leaves no room for a bar.
    pub fn progress(&self, cur: usize, max: usize) -> (bar: Option<String>)
        requires
            cur <= max,
        ensures
            match bar {
                Some(text) => progress_spec(self.width_spec(), cur as nat, max as nat) == Some(
                    text@,
                ),
                None => progress_spec(self.width_spec(), cur as nat, max as nat).is_none(),
            },
    {
        let width = self.width();
        if width < 25 {
            return None;
        }
        let display_width: usize = width - 25;
        let hashes = fill(display_width, cur, max);
        let mut text = String::from_str("[");
        append_filled(&mut text, hashes, cur == max);
        proof {
            reveal_strlit(" ");
            lemma_fill_monotone(display_width as nat, cur as nat, cur as nat, max as nat);
        }
        append_repeated(&mut text, " ", display_width - hashes);
        text.append("]");
        text.append(" ");
        append_percent(&mut text, hundredths(cur, max));
        text.append("%");
        assert(text@ =~= bar_spec(display_width as nat, cur as nat, max as nat));
        Some(text)
    }

    /// Appends to `string` as much of `msg` as the line has room for
    /// beside the reserve, `widths` giving the columns of each character
    /// of `msg`.
    pub fn render_with(&self, string: &mut String, msg: &str, widths: &Vec<usize>)
        requires
            old(string)@.len() + 15 <= self.max_width,
            widths@.len() == msg@.len(),
        ensures
            final(string)@ == render_spec(old(string)@, msg@, widths@, self.max_width as nat),
    {
        let prefix_len: usize = string.as_str().unicode_len();
        let avail: usize = self.max_width - prefix_len - 15;
        if avail <= 3 {
            return ;
        }
        let ghost prefix = string@;
        let n: usize = widths.len();
        let mut used: usize = 0;
        let mut kept: usize = 0;
        let mut i: usize = 0;
        while i < n
            invariant
                i <= n,
                n == msg@.len(),
                n == widths@.len(),
                avail > 3,
                string@ == prefix,
                prefix == old(string)@,
                avail == self.max_width - prefix.len() - 15,
                used == columns(widths@, i as int),
                used <= avail,
                kept == kept_upto(widths@, avail as nat, i as int),
                kept <= i,
            decreases n - i,
        {
            let w: usize = widths[i];
            if w > avail - used {
                proof {
                    assert forall|j: int| i < j <= n implies #[trigger] columns(widths@, j) + 3
                        > avail by {
                        lemma_columns_grow(widths@, i + 1, j);
                    }
                    lemma_kept_stops(widths@, avail as nat, i as int, n as int);
                    lemma_columns_grow(widths@, i + 1, n as int);
                }
                string.append(msg.substring_char(0, kept));
                string.append("...");
                assert(string@ =~= prefix + msg@.take(kept as int) + "..."@);
                return ;
            }
            used = used + w;
            i = i + 1;
            if avail - used >= 3 {
                kept = i;
            }
        }
        string.append(msg);
    }

    /// Appends to `string` as much of `msg` as the line has room for
    /// beside the reserve.
    pub fn render(&self, string: &mut String, msg: &str)
        requires
            old(string)@.len() + 15 <= self.max_width,
        ensures
            final(string)@ == render_spec(
                old(string)@,
                msg@,
                widths_spec(msg@),
                self.max_width as nat,
            ),
    {
        let widths = message_widths(msg);
        self.render_with(string, msg, &widths);
    }
}

/// The spacing of lines in time.
#[derive(Debug, Clone, Copy, PartialEq, Eq, Structural)]
pub struct Throttle {
    /// No line has been let through yet.
    pub first: bool,
    /// The time of the last line let through, or of the start, in
    /// milliseconds.
    pub last_update: u64,
}

impl Throttle {
    /// The milliseconds from the last update to `now`; none where `now`
    /// lies before it.
    pub open spec fn elapsed_spec(self, now: u64) -> nat {
        if now >= self.last_update {
            (now - self.last_update) as nat
        } else {
            0
        }
    }

    /// A line may be drawn at `now`: the warm-up has passed where it
    /// would be the first, the interval where it would not.
    pub open spec fn allowed_spec(self, now: u64) -> bool {
        if self.first {
            self.elapsed_spec(now) >= WARM_UP
        } else {
            self.elapsed_spec(now) >= INTERVAL
        }
    }

    /// The throttle once a line has gone through at `now`.
    pub open spec fn updated(now: u64) -> Throttle {
        Throttle { first: false, last_update: now }
    }

    /// The throttle after a sample at `now`.
    pub open spec fn step_spec(self, now: u64) -> Throttle {
        if self.allowed_spec(now) {
            Throttle::updated(now)
        } else {
            self
        }
    }

    /// A throttle started at `now`.
    pub fn new(now: u64) -> (throttle: Throttle)
        ensures
            throttle == (Throttle { first: true, last_update: now }),
    {
        Throttle { first: true, last_update: now }
    }

    /// Whether a line may be drawn at `now`. If so, `now` is noted as the
    /// time of the last line.
    pub fn allowed(&mut self, now: u64) -> (yes: bool)
        ensures
            yes == old(self).allowed_spec(now),
            *final(self) == old(self).step_spec(now),
    {
        let elapsed: u64 = if now >= self.last_update {
            now - self.last_update
        } else {
            0
        };
        if self.first {
            if elapsed < WARM_UP {
                return false;
            }
        } else {
            if elapsed < INTERVAL {
                return false;
            }
        }
        self.update(now);
        true
    }

    /// Notes `now` as the time of the last line.
    pub fn update(&mut self, now: u64)
        ensures
            *final(self) == Throttle::updated(now),
    {
        self.first = false;
        self.last_update = now;
    }
}

/// What drawing takes to know between two samples.
#[derive(Debug, Clone, PartialEq, Eq)]
pub struct State {
    /// The name of what is in progress.
    pub name: String,
    /// Every item is done; later samples are ignored.
    pub done: bool,
    pub throttle: Throttle,
    pub format: Format,
    /// The line drawn last.
    pub last_line: Option<String>,
    pub shell: Shell,
}

/// The state of the drawing as a value.
pub ghost struct StateModel {
    pub name: Seq<char>,
    pub done: bool,
    pub throttle: Throttle,
    pub format: Format,
    pub last_line: Option<Seq<char>>,
    pub shell: Shell,
}

/// What one sample asks to be written.
#[derive(Debug, Clone, PartialEq, Eq)]
pub struct Render {
    /// A status header for the standard output, if one is due.
    pub header: Option<String>,
    /// The progress line for the error output, closed by a carriage
    /// return.
    pub line: String,
}

/// What one sample asks to be written, as a value.
pub ghost struct RenderModel {
    pub header: Option<Seq<char>>,
    pub line: Seq<char>,
}

impl View for State {
    type V = StateModel;

    open spec fn view(&self) -> StateModel {
        StateModel {
            name: self.name@,
            done: self.done,
            throttle: self.throttle,
            format: self.format,
            last_line: match self.last_line {
                Some(l) => Some(l@),
                None => None,
            },
            shell: self.shell,
        }
    }
}

impl View for Render {
    type V = RenderModel;

    open spec fn view(&self) -> RenderModel {
        RenderModel {
            header: match self.header {
                Some(h) => Some(h@),
                None => None,
            },
            line: self.line@,
        }
    }
}

/// What is written as a value, if anything is.
pub open spec fn render_view(render: Option<Render>) -> Option<RenderModel> {
    match render {
        Some(r) => Some(r@),
        None => None,
    }
}

/// The width of the terminal.
pub open spec fn terminal_width() -> usize {
    80
}

/// The line for `prefix` and `msg` on the terminal: the message as far
/// as it fits, then spaces up to the reserve.
pub open spec fn line_spec(prefix: Seq<char>, msg: Seq<char>) -> Seq<char> {
    pad_spec(
        render_spec(prefix, msg, widths_spec(msg), terminal_width() as nat),
        (terminal_width() - RESERVED) as nat,
    )
}

/// Drawing `prefix` and `msg` at `now`: the throttle notes the time, and
/// the line is drawn, unless it is the line drawn last and the terminal
/// is clear already.
pub open spec fn print_spec(s: StateModel, now: u64, prefix: Seq<char>, msg: Seq<char>) -> (
    StateModel,
    Option<RenderModel>,
) {
    let noted = StateModel {
        throttle: Throttle::updated(now),
        format: Format { max_width: terminal_width(), ..s.format },
        ..s
    };
    let line = line_spec(prefix, msg);
    if s.shell.needs_clear || s.last_line != Some(line) {
        (
            StateModel {
                last_line: Some(line),
                shell: Shell { needs_clear: true, ..s.shell },
                ..noted
            },
            Some(
                RenderModel {
                    header: if s.shell.quiet {
                        Some(header_spec(s.name))
                    } else {
                        None
                    },
                    line: line + "\r"@,
                },
            ),
        )
    } else {
        (noted, None)
    }
}

/// A sample of `cur` of `max` items with `msg`, let through by the
/// throttle at `now`. Once every item is done, samples are ignored. The
/// sample that completes the items is the last one drawn.
pub open spec fn tick_spec(s: StateModel, now: u64, cur: nat, max: nat, msg: Seq<char>) -> (
    StateModel,
    Option<RenderModel>,
) {
    if s.done {
        (s, None)
    } else {
        let format = Format { max_width: terminal_width(), ..s.format };
        let marked = StateModel { done: max > 0 && cur == max, format, ..s };
        match progress_spec(format.width_spec(), cur, max) {
            Some(bar) => print_spec(marked, now, bar, msg),
            None => (marked, None),
        }
    }
}

/// A sample at `now`: dropped while the throttle holds lines back, drawn
/// as [`tick_spec`] says once it lets one through.
pub open spec fn sample_spec(s: StateModel, now: u64, cur: nat, max: nat, msg: Seq<char>) -> (
    StateModel,
    Option<RenderModel>,
) {
    if s.throttle.allowed_spec(now) {
        tick_spec(StateModel { throttle: Throttle::updated(now), ..s }, now, cur, max, msg)
    } else {
        (s, None)
    }
}

impl State {
    /// Takes the width of the terminal as the width of the line.
    pub fn try_update_max_width(&mut self)
        ensures
            final(self)@ == (StateModel {
                format: Format { max_width: terminal_width(), ..old(self).format },
                ..old(self)@
            }),
    {
        self.format.max_width = self.shell.err_width().size(self.format.max_width);
    }

    /// Draws `prefix` and `msg` at `now`.
    pub fn print(&mut self, now: u64, prefix: &str, msg: &str) -> (drawn: Option<Render>)
        requires
            prefix@.len() + RESERVED <= terminal_width(),
        ensures
            (final(self)@, render_view(drawn)) == print_spec(old(self)@, now, prefix@, msg@),
    {
        self.throttle.update(now);
        self.try_update_max_width();
        if self.format.max_width < RESERVED {
            return None;
        }
        let mut line = String::from_str(prefix);
        self.format.render(&mut line, msg);
        let target: usize = self.format.max_width - RESERVED;
        let len: usize = line.as_str().unicode_len();
        proof {
            reveal_strlit(" ");
        }
        if len < target {
            append_repeated(&mut line, " ", target - len);
        }
        assert(line@ == line_spec(prefix@, msg@));
        let same = match &self.last_line {
            Some(last) => *last == line,
            None => false,
        };
        if !self.shell.is_cleared() || !same {
            self.shell.set_needs_clear(false);
            let output = self.shell.status_header(self.name.as_str());
            let mut text = line.clone();
            text.append("\r");
            self.last_line = Some(line);
            self.shell.set_needs_clear(true);
            Some(Render { header: output.text, line: text })
        } else {
            None
        }
    }

    /// Takes a sample that the throttle has let through at `now`.
    pub fn tick(&mut self, now: u64, cur: usize, max: usize, msg: &str) -> (drawn: Option<Render>)
        requires
            !old(self).done ==> cur <= max,
        ensures
            (final(self)@, render_view(drawn)) == tick_spec(
                old(self)@,
                now,
                cur as nat,
                max as nat,
                msg@,
            ),
    {
        if self.done {
            return None;
        }
        if max > 0 && cur == max {
            self.done = true;
        }
        self.try_update_max_width();
        match self.format.progress(cur, max) {
            Some(bar) => {
                proof {
                    lemma_bar_len(
                        (self.format.width_spec() - extra_columns()) as nat,
                        cur as nat,
                        max as nat,
                    );
                }
                self.print(now, bar.as_str(), msg)
            },
            None => None,
        }
    }
}

/// The progress of one transfer, drawn on one line. Each transfer has a
/// reporter of its own.
#[derive(Debug)]
pub struct Progress {
    pub state: State,
    /// The moment from which the time of a sample is counted.
    pub started: Instant,
}

/// The state of a reporter that has drawn nothing yet.
pub open spec fn initial_state(name: Seq<char>) -> StateModel {
    StateModel {
        name,
        done: false,
        throttle: Throttle { first: true, last_update: 0 },
        format: Format { max_width: terminal_width(), max_print: 50 },
        last_line: None,
        shell: Shell { needs_clear: false, quiet: false },
    }
}

/// The current moment, as `Instant::now` of std gives it. Nothing is
/// claimed of it.
#[verifier::external_body]
fn clock_start() -> (start: Instant) {
    Instant::now()
}

/// The time that has passed since `start`, as `Instant::elapsed` of std
/// gives it. Nothing is claimed of it.
#[verifier::external_body]
fn clock_elapsed(start: &Instant) -> (elapsed: Duration) {
    start.elapsed()
}

/// The whole milliseconds of `elapsed`, as `Duration::as_millis` of std
/// counts them. Nothing is claimed of the number.
#[verifier::external_body]
fn whole_millis(elapsed: Duration) -> (millis: u128) {
    elapsed.as_millis()
}

/// A count of milliseconds as a `u64` holds it: the count itself, or the
/// largest `u64` where the count is greater.
pub open spec fn held_millis_spec(millis: u128) -> u64 {
    if millis > u64::MAX {
        u64::MAX
    } else {
        millis as u64
    }
}

/// A count of milliseconds as a `u64` holds it.
pub fn held_millis(millis: u128) -> (held: u64)
    ensures
        held == held_millis_spec(millis),
{
    if millis > u64::MAX as u128 {
        u64::MAX
    } else {
        millis as u64
    }
}

impl Progress {
    /// A reporter for the transfer called `name`, started now.
    pub fn new(name: &str) -> (progress: Progress)
        ensures
            progress.state@ == initial_state(name@),
    {
        let shell = Shell::new();
        Progress {
            state: State {
                name: String::from_str(name),
                format: Format { max_width: shell.err_width().size(80), max_print: 50 },
                throttle: Throttle::new(0),
                done: false,
                last_line: None,
                shell,
            },
            started: clock_start(),
        }
    }

    /// The milliseconds since the reporter was started, as far as a
    /// `u64` counts.
    pub fn now(&self) -> (millis: u64) {
        held_millis(whole_millis(clock_elapsed(&self.started)))
    }

    /// A sample at `now` reaches the bar: the throttle lets it through,
    /// and not every item is done yet.
    pub open spec fn takes_spec(self, now: u64) -> bool {
        self.state.throttle.allowed_spec(now) && !self.state.done
    }

    /// Whether a sample at `now` reaches the bar. Of a sample that does,
    /// no more items may be done than there are.
    pub fn takes(&self, now: u64) -> (yes: bool)
        ensures
            yes == self.takes_spec(now),
    {
        let last: u64 = self.state.throttle.last_update;
        let elapsed: u64 = if now >= last {
            now - last
        } else {
            0
        };
        let allowed = if self.state.throttle.first {
            elapsed >= WARM_UP
        } else {
            elapsed >= INTERVAL
        };
        allowed && !self.state.done
    }

    /// Takes a sample of `cur` of `max` items with `msg` at `now`
    /// milliseconds after the start, and returns what is to be written
    /// for it, if anything. No more items may be done than there are
    /// where the sample reaches the bar.
    ///
    /// The first line is held back until the warm-up has passed, each
    /// later one until the interval has passed since the line before. A
    /// sample that is held back is dropped.
    pub fn tick_at(&mut self, now: u64, cur: usize, max: usize, msg: &str) -> (drawn: Option<
        Render,
    >)
        requires
            old(self).takes_spec(now) ==> cur <= max,
        ensures
            final(self).started == old(self).started,
            (final(self).state@, render_view(drawn)) == sample_spec(
                old(self).state@,
                now,
                cur as nat,
                max as nat,
                msg@,
            ),
    {
        if !self.state.throttle.allowed(now) {
            return None;
        }
        self.state.tick(now, cur, max, msg)
    }

    /// Takes a sample at the current time. Whatever the clock says, the
    /// sample is handled as [`Progress::tick_at`] handles it at some time.
    pub fn tick(&mut self, cur: usize, max: usize, msg: &str) -> (drawn: Option<Render>)
        requires
            cur <= max,
        ensures
            final(self).started == old(self).started,
            exists|now: u64|
                (final(self).state@, render_view(drawn)) == sample_spec(
                    old(self).state@,
                    now,
                    cur as nat,
                    max as nat,
                    msg@,
                ),
    {
        let now = self.now();
        self.tick_at(now, cur, max, msg)
    }
}

/// `Instant` of std, the moment that a reporter counts time from.
#[verifier::external_type_specification]
#[verifier::external_body]
pub struct ExInstant(std::time::Instant);

/// One sample as it reaches a reporter.
pub ghost struct Sample {
    pub now: u64,
    pub cur: nat,
    pub max: nat,
    pub msg: Seq<char>,
}

/// The samples come in the order of their times.
pub open spec fn in_order(samples: Seq<Sample>) -> bool {
    forall|i: int, j: int| 0 <= i <= j < samples.len() ==> samples[i].now <= samples[j].now
}

/// The state of a reporter that started in `start` and has taken the
/// first `upto` samples.
pub open spec fn state_after(start: StateModel, samples: Seq<Sample>, upto: int) -> StateModel
    decreases upto,
{
    if upto <= 0 {
        start
    } else {
        let sample = samples[upto - 1];
        sample_spec(
            state_after(start, samples, upto - 1),
            sample.now,
            sample.cur,
            sample.max,
            sample.msg,
        ).0
    }
}

/// The reporter draws a line for the sample at index `k`.
pub open spec fn drawn_at(start: StateModel, samples: Seq<Sample>, k: int) -> bool {
    let sample = samples[k];
    sample_spec(state_after(start, samples, k), sample.now, sample.cur, sample.max, sample.msg).1.is_some()
}

/// A sample moves the throttle as the throttle alone decides, and a line
/// is drawn only where the throttle lets one through.
pub proof fn lemma_sample_throttle(s: StateModel, now: u64, cur: nat, max: nat, msg: Seq<char>)
    ensures
        sample_spec(s, now, cur, max, msg).0.throttle == s.throttle.step_spec(now),
        sample_spec(s, now, cur, max, msg).1.is_some() ==> s.throttle.allowed_spec(now),
{
}

/// Once a line has been let through at index `i`, the throttle stays
/// past its warm-up and remembers a time no earlier than that line's.
pub proof fn lemma_throttle_after_line(start: StateModel, samples: Seq<Sample>, i: int, k: int)
    requires
        in_order(samples),
        0 <= i < k <= samples.len(),
        state_after(start, samples, i).throttle.allowed_spec(samples[i].now),
    ensures
        !state_after(start, samples, k).throttle.first,
        state_after(start, samples, k).throttle.last_update >= samples[i].now,
    decreases k - i,
{
    let before = state_after(start, samples, k - 1);
    let sample = samples[k - 1];
    lemma_sample_throttle(before, sample.now, sample.cur, sample.max, sample.msg);
    if k - 1 > i {
        lemma_throttle_after_line(start, samples, i, k - 1);
    }
}

/// Two lines are never drawn within the interval of each other: of two
/// samples that are both drawn, the later comes at least the interval
/// after the earlier.
pub proof fn lemma_lines_apart(start: StateModel, samples: Seq<Sample>, i: int, j: int)
    requires
        in_order(samples),
        0 <= i < j < samples.len(),
        drawn_at(start, samples, i),
        drawn_at(start, samples, j),
    ensures
        samples[j].now - samples[i].now >= INTERVAL,
{
    let at_i = state_after(start, samples, i);
    let at_j = state_after(start, samples, j);
    lemma_sample_throttle(at_i, samples[i].now, samples[i].cur, samples[i].max, samples[i].msg);
    lemma_sample_throttle(at_j, samples[j].now, samples[j].cur, samples[j].max, samples[j].msg);
    lemma_throttle_after_line(start, samples, i, j);
}

/// Until a first line is let through the throttle stays as it started.
pub proof fn lemma_throttle_before_line(start: StateModel, samples: Seq<Sample>, k: int)
    requires
        0 <= k <= samples.len(),
        start.throttle.first,
    ensures
        state_after(start, samples, k).throttle == start.throttle || (!state_after(
            start,
            samples,
            k,
        ).throttle.first && exists|m: int|
            0 <= m < k && state_after(start, samples, m).throttle == start.throttle
                && start.throttle.allowed_spec(#[trigger] samples[m].now)),
    decreases k,
{
    if k > 0 {
        let before = state_after(start, samples, k - 1);
        let sample = samples[k - 1];
        lemma_sample_throttle(before, sample.now, sample.cur, sample.max, sample.msg);
        lemma_throttle_before_line(start, samples, k - 1);
        if before.throttle == start.throttle && before.throttle.allowed_spec(sample.now) {
            assert(start.throttle.allowed_spec(samples[k - 1].now));
        }
    }
}

/// No line is drawn before the warm-up has passed: a reporter that has
/// drawn nothing yet and was started at time zero draws a sample only if
/// it comes at least the warm-up after the start.
pub proof fn lemma_warm_up(name: Seq<char>, samples: Seq<Sample>, i: int)
    requires
        in_order(samples),
        0 <= i < samples.len(),
        drawn_at(initial_state(name), samples, i),
    ensures
        samples[i].now >= WARM_UP,
{
    let start = initial_state(name);
    let at_i = state_after(start, samples, i);
    lemma_sample_throttle(at_i, samples[i].now, samples[i].cur, samples[i].max, samples[i].msg);
    lemma_throttle_before_line(start, samples, i);
    if at_i.throttle != start.throttle {
        let m = choose|m: int|
            0 <= m < i && state_after(start, samples, m).throttle == start.throttle
                && start.throttle.allowed_spec(#[trigger] samples[m].now);
        assert(samples[m].now <= samples[i].now);
    }
}

} // verus!
