//! The memory-pressure strip, docked under the session-list column.
//!
//! Two stacked rows: a memory-over-time area sparkline on top, then a readout row (percent plus
//! used/total, and the agent/process counts). The sparkline plots memory headroom; its colour and
//! the percent share a green/amber/red band, that of the memory sample.
//!
//! The readout row sheds gracefully as width shrinks: the used/total detail drops before the
//! counts, and below that only the percent remains.
use crate::history::{newest, newest_is_the_tail};
use crate::metrics::{AgentCounts, MemorySample, MetricsSnapshot, PressureBand};
use crate::terminal::{
    bar_cell, bar_eighths, block_symbol, bold_span, columns, draw_line, draw_sparkline, fg_span,
    frame_extent, frame_grid, glyphs, line_drawn, line_from, line_stays_inside,
    painted_shows_what_was_painted, piece, plain_pieces, plain_text, raw_span, row,
    sparkline_drawn, sparkline_stays_inside, stack, stacked, text_cell, text_width,
    within_means_every_cell, Area, Grid, Ink, Look, Piece, Row, BOLD,
};
use crate::text::{
    decimal, decimal_is_made_of_digits, decimal_is_short, decimal_reads_back, decimal_value,
    decimal_value_is_positional, push_decimal,
};
use ratatui::style::Color;
use ratatui::text::{Line, Span};
use ratatui::Frame;
use std::collections::VecDeque;
use vstd::arithmetic::div_mod::{
    lemma_div_is_ordered, lemma_fundamental_div_mod, lemma_fundamental_div_mod_converse,
};
use vstd::prelude::*;

verus! {

/// The full `0..=100%` scale in per-mille, so the sparkline plots against a fixed ceiling instead
/// of auto-scaling to whatever the recent peak happened to be.
pub const PER_MILLE_MAX: u64 = 1000;

/// The fewest lines that the sparkline keeps.
pub const SPARKLINE_MIN_LINES: u16 = 1;

/// The lines of the readout.
pub const READOUT_LINES: u16 = 1;

pub const KIB: u64 = 0x400;

pub const MIB: u64 = 0x10_0000;

pub const GIB: u64 = 0x4000_0000;

/// The colours that the strip draws with.
#[derive(Clone, Copy, Debug)]
pub struct Theme {
    pub running: Color,
    pub waiting: Color,
    pub error: Color,
    pub dimmed: Color,
    pub text: Color,
}

/// The colour that `theme` has for `band`.
pub open spec fn color_of(theme: Theme, band: PressureBand) -> Color {
    match band {
        PressureBand::Normal => theme.running,
        PressureBand::Warn => theme.waiting,
        PressureBand::Critical => theme.error,
    }
}

/// The colour of a pressure band.
pub fn band_color(theme: &Theme, band: PressureBand) -> (color: Color)
    ensures
        color == color_of(*theme, band),
        band is Normal ==> color == theme.running,
        band is Warn ==> color == theme.waiting,
        band is Critical ==> color == theme.error,
{
    match band {
        PressureBand::Normal => theme.running,
        PressureBand::Warn => theme.waiting,
        PressureBand::Critical => theme.error,
    }
}

/// `n` in units of `unit`, to the nearest whole number; halfway goes up.
pub open spec fn rounded(n: nat, unit: nat) -> nat {
    (n + unit / 2) / unit
}

/// A byte count in compact form: one decimal of a GiB, unless it is a whole number of them, and
/// whole numbers of the smaller units.
pub open spec fn bytes_text(n: nat) -> Seq<char> {
    if n >= GIB {
        let tenths = rounded(10 * n, GIB as nat);
        if tenths % 10 == 0 {
            decimal(tenths / 10) + "G"@
        } else {
            decimal(tenths / 10) + "."@ + decimal(tenths % 10) + "G"@
        }
    } else if n >= MIB {
        decimal(rounded(n, MIB as nat)) + "M"@
    } else if n >= KIB {
        decimal(rounded(n, KIB as nat)) + "K"@
    } else {
        decimal(n) + "B"@
    }
}

/// Compact binary-unit byte string: `22.7G`, `9.9G`, `512M`, `1K`, `512B`. GiB keeps one decimal
/// but drops a whole `.0`; smaller units round to a whole number.
pub fn format_bytes(bytes: u64) -> (text: String)
    ensures
        text@ == bytes_text(bytes as nat),
{
    let mut text = String::new();
    if bytes >= GIB {
        // Tenths of a GiB, rounded, so 32 GiB reads "32G" and 22.7 GiB "22.7G".
        let tenths: u128 = (bytes as u128 * 10 + GIB as u128 / 2) / GIB as u128;
        let whole: u64 = (tenths / 10) as u64;
        let tenth: u64 = (tenths % 10) as u64;
        push_decimal(&mut text, whole);
        if tenth != 0 {
            text.append(".");
            push_decimal(&mut text, tenth);
        }
        text.append("G");
    } else if bytes >= MIB {
        push_decimal(&mut text, (bytes + MIB / 2) / MIB);
        text.append("M");
    } else if bytes >= KIB {
        push_decimal(&mut text, (bytes + KIB / 2) / KIB);
        text.append("K");
    } else {
        push_decimal(&mut text, bytes);
        text.append("B");
    }
    assert(text@ =~= bytes_text(bytes as nat));
    text
}

/// The rounded figure is as near as a whole number of units can be.
pub proof fn rounded_is_nearest(n: nat, unit: nat)
    requires
        unit > 0,
    ensures
        2 * (rounded(n, unit) * unit) <= 2 * n + unit,
        2 * n < 2 * (rounded(n, unit) * unit) + unit,
{
    let q = rounded(n, unit);
    lemma_fundamental_div_mod((n + unit / 2) as int, unit as int);
    assert(q * unit == unit * q) by (nonlinear_arith);
}

/// A larger byte count never rounds to a smaller figure.
pub proof fn rounded_keeps_order(a: nat, b: nat, unit: nat)
    requires
        a <= b,
        unit > 0,
    ensures
        rounded(a, unit) <= rounded(b, unit),
{
    lemma_div_is_ordered((a + unit / 2) as int, (b + unit / 2) as int, unit as int);
}

/// A whole number of units is its own rounding.
proof fn lemma_rounded_whole(k: nat, unit: nat)
    requires
        unit > 0,
    ensures
        rounded(k * unit, unit) == k,
{
    lemma_fundamental_div_mod_converse(
        (k * unit + unit / 2) as int,
        unit as int,
        k as int,
        (unit / 2) as int,
    );
}

/// A whole number of units reads as that number, in the largest unit that it reaches: `32G` has
/// no `.0`.
pub proof fn whole_units_read_exactly(k: nat)
    ensures
        k >= 1 ==> bytes_text(k * GIB as nat) == decimal(k) + "G"@,
        1 <= k < 1024 ==> bytes_text(k * MIB as nat) == decimal(k) + "M"@,
        1 <= k < 1024 ==> bytes_text(k * KIB as nat) == decimal(k) + "K"@,
        k < 1024 ==> bytes_text(k) == decimal(k) + "B"@,
{
    lemma_rounded_whole(10 * k, GIB as nat);
    lemma_rounded_whole(k, MIB as nat);
    lemma_rounded_whole(k, KIB as nat);
}

/// The bytes of the unit that a letter stands for.
pub open spec fn unit_bytes(letter: char) -> nat {
    if letter == 'G' {
        GIB as nat
    } else if letter == 'M' {
        MIB as nat
    } else if letter == 'K' {
        KIB as nat
    } else {
        1
    }
}

/// Ten times the number that is written with one decimal, or as a whole number.
pub open spec fn tenfold_number(text: Seq<char>) -> nat {
    let len = text.len() as int;
    if len >= 2 && text[len - 2] == '.' {
        10 * decimal_value(text.take(len - 2)) + decimal_value(text.skip(len - 1))
    } else {
        10 * decimal_value(text)
    }
}

/// Ten times the bytes that a byte count in compact form stands for: its number times its unit.
pub open spec fn tenfold_bytes(text: Seq<char>) -> nat {
    tenfold_number(text.drop_last()) * unit_bytes(text.last())
}

/// A whole number reads as itself.
proof fn lemma_whole_number(n: nat)
    ensures
        tenfold_number(decimal(n)) == 10 * n,
{
    decimal_is_made_of_digits(n);
    decimal_reads_back(n);
}

/// A whole number, a point and one digit read as the tenths that they are.
proof fn lemma_number_with_tenths(whole: nat, tenth: nat)
    requires
        tenth < 10,
    ensures
        tenfold_number(decimal(whole) + "."@ + decimal(tenth)) == 10 * whole + tenth,
{
    reveal_strlit(".");
    let text = decimal(whole) + "."@ + decimal(tenth);
    let len = text.len() as int;
    assert(text.take(len - 2) =~= decimal(whole));
    assert(text.skip(len - 1) =~= decimal(tenth));
    decimal_reads_back(whole);
    decimal_reads_back(tenth);
}

/// What a byte count in compact form stands for: tenths of a GiB, or whole smaller units, to the
/// nearest.
pub proof fn bytes_text_stands_for_the_rounded_count(n: nat)
    ensures
        tenfold_bytes(bytes_text(n)) == if n >= GIB {
            rounded(10 * n, GIB as nat) * GIB as nat
        } else if n >= MIB {
            10 * rounded(n, MIB as nat) * MIB as nat
        } else if n >= KIB {
            10 * rounded(n, KIB as nat) * KIB as nat
        } else {
            10 * n
        },
{
    reveal_strlit("G");
    reveal_strlit("M");
    reveal_strlit("K");
    reveal_strlit("B");
    let text = bytes_text(n);
    if n >= GIB {
        let tenths = rounded(10 * n, GIB as nat);
        if tenths % 10 == 0 {
            lemma_whole_number(tenths / 10);
            assert(text.drop_last() =~= decimal(tenths / 10));
        } else {
            lemma_number_with_tenths(tenths / 10, tenths % 10);
            assert(text.drop_last() =~= decimal(tenths / 10) + "."@ + decimal(tenths % 10));
        }
        assert(tenfold_number(text.drop_last()) == tenths);
    } else if n >= MIB {
        lemma_whole_number(rounded(n, MIB as nat));
        assert(text.drop_last() =~= decimal(rounded(n, MIB as nat)));
    } else if n >= KIB {
        lemma_whole_number(rounded(n, KIB as nat));
        assert(text.drop_last() =~= decimal(rounded(n, KIB as nat)));
    } else {
        lemma_whole_number(n);
        assert(text.drop_last() =~= decimal(n));
    }
}

/// The size that a byte count in compact form stands for never falls as the byte count grows,
/// within a unit and from one unit to the next.
pub proof fn bytes_text_keeps_order(a: nat, b: nat)
    requires
        a <= b,
    ensures
        tenfold_bytes(bytes_text(a)) <= tenfold_bytes(bytes_text(b)),
{
    bytes_text_stands_for_the_rounded_count(a);
    bytes_text_stands_for_the_rounded_count(b);
    rounded_keeps_order(10 * a, 10 * b, GIB as nat);
    rounded_keeps_order(a, b, MIB as nat);
    rounded_keeps_order(a, b, KIB as nat);
}

/// The columns before the percent.
pub const INSET: usize = 1;

/// How much the readout shows beside the percent.
#[derive(Clone, Copy, Debug, PartialEq, Eq, Structural)]
pub enum ReadoutDetail {
    /// Used and total memory, and the counts.
    Full,
    /// The counts.
    Counts,
    /// Nothing.
    Percent,
}

/// The columns that the parts of the readout take.
#[derive(Clone, Copy, Debug)]
pub struct ReadoutWidths {
    pub percent: usize,
    pub gap: usize,
    pub detail: usize,
    pub separator: usize,
    pub counts: usize,
}

/// The columns that the readout takes with everything shown.
pub open spec fn full_width(
    percent: nat,
    gap: nat,
    detail: nat,
    separator: nat,
    counts: nat,
) -> nat {
    INSET as nat + percent + gap + detail + separator + counts
}

/// The columns that the readout takes without used and total memory.
pub open spec fn counts_width(percent: nat, gap: nat, counts: nat) -> nat {
    INSET as nat + percent + gap + counts
}

/// As much detail as `avail` columns hold.
pub open spec fn detail_for(
    percent: nat,
    gap: nat,
    detail: nat,
    separator: nat,
    counts: nat,
    avail: nat,
) -> ReadoutDetail {
    if full_width(percent, gap, detail, separator, counts) <= avail {
        ReadoutDetail::Full
    } else if counts_width(percent, gap, counts) <= avail {
        ReadoutDetail::Counts
    } else {
        ReadoutDetail::Percent
    }
}

/// As much detail as `avail` columns hold.
pub fn fitting_detail(widths: &ReadoutWidths, avail: usize) -> (detail: ReadoutDetail)
    ensures
        detail == detail_for(
            widths.percent as nat,
            widths.gap as nat,
            widths.detail as nat,
            widths.separator as nat,
            widths.counts as nat,
            avail as nat,
        ),
        detail is Full <==> 1 + widths.percent + widths.gap + widths.detail + widths.separator
            + widths.counts <= avail,
        detail is Percent <==> 1 + widths.percent + widths.gap + widths.counts > avail,
{
    let counts_width: u128 = INSET as u128 + widths.percent as u128 + widths.gap as u128
        + widths.counts as u128;
    let full_width: u128 = counts_width + widths.detail as u128 + widths.separator as u128;
    if full_width <= avail as u128 {
        ReadoutDetail::Full
    } else if counts_width <= avail as u128 {
        ReadoutDetail::Counts
    } else {
        ReadoutDetail::Percent
    }
}

/// How many of the parts beside the percent a detail shows.
pub open spec fn parts_shown(detail: ReadoutDetail) -> nat {
    match detail {
        ReadoutDetail::Full => 2,
        ReadoutDetail::Counts => 1,
        ReadoutDetail::Percent => 0,
    }
}

/// The readout sheds gracefully: less room never shows more, used and total memory goes before
/// the counts do, and what is shown beside the percent has room.
pub proof fn readout_sheds_gracefully(
    percent: nat,
    gap: nat,
    detail: nat,
    separator: nat,
    counts: nat,
    less: nat,
    more: nat,
)
    requires
        less <= more,
    ensures
        parts_shown(detail_for(percent, gap, detail, separator, counts, less)) <= parts_shown(
            detail_for(percent, gap, detail, separator, counts, more),
        ),
        counts_width(percent, gap, counts) <= full_width(percent, gap, detail, separator, counts),
        detail_for(percent, gap, detail, separator, counts, less) is Percent <==> less
            < counts_width(percent, gap, counts),
        detail_for(percent, gap, detail, separator, counts, less) is Full <==> full_width(
            percent,
            gap,
            detail,
            separator,
            counts,
        ) <= less,
{
}

/// The counts, in words.
pub open spec fn counts_text(counts: AgentCounts) -> Seq<char> {
    decimal(counts.agents as nat) + " agents · "@ + decimal(counts.procs as nat) + " procs"@
}

/// The share of memory in use.
pub open spec fn percent_text(mem: MemorySample) -> Seq<char> {
    decimal(mem.used_percent as nat) + "%"@
}

/// Used and total memory.
pub open spec fn detail_text(mem: MemorySample) -> Seq<char> {
    bytes_text(mem.used_bytes as nat) + "/"@ + bytes_text(mem.total_bytes as nat)
}

/// How much the readout of `mem` and `counts` shows in `avail` columns. Every character of it
/// takes one column.
pub open spec fn readout_detail(
    mem: MemorySample,
    counts: AgentCounts,
    avail: nat,
) -> ReadoutDetail {
    detail_for(
        percent_text(mem).len(),
        "  "@.len(),
        detail_text(mem).len(),
        "  │  "@.len(),
        counts_text(counts).len(),
        avail,
    )
}

/// The readout: a space of inset, the percent in the colour of the band, and beside it what there
/// is room for. Before the first sample the memory figure is unknown, and only the counts show.
pub open spec fn readout(
    theme: Theme,
    color: Color,
    mem: MemorySample,
    counts: AgentCounts,
    avail: nat,
) -> Seq<Piece> {
    let inset = Piece::Inked(" "@, Ink::Plain);
    let gap = Piece::Inked("  "@, Ink::Plain);
    let percent = Piece::Inked(percent_text(mem), Ink::BoldFg(color));
    let detail = Piece::Inked(detail_text(mem), Ink::Fg(theme.text));
    let separator = Piece::Inked("  │  "@, Ink::Fg(theme.dimmed));
    let tally = Piece::Inked(counts_text(counts), Ink::Fg(theme.dimmed));
    if mem.total_bytes == 0 {
        seq![inset, tally]
    } else {
        match readout_detail(mem, counts, avail) {
            ReadoutDetail::Full => seq![inset, percent, gap, detail, separator, tally],
            ReadoutDetail::Counts => seq![inset, percent, gap, tally],
            ReadoutDetail::Percent => seq![inset, percent],
        }
    }
}

/// The readout always begins with a space of inset; where memory is known, the percent follows,
/// bold in the colour it was given, however little room there is.
pub proof fn readout_leads_with_the_percent(
    theme: Theme,
    color: Color,
    mem: MemorySample,
    counts: AgentCounts,
    avail: nat,
)
    ensures
        readout(theme, color, mem, counts, avail)[0] == Piece::Inked(" "@, Ink::Plain),
        mem.total_bytes != 0 ==> readout(theme, color, mem, counts, avail)[1] == Piece::Inked(
            percent_text(mem),
            Ink::BoldFg(color),
        ),
{
}

/// The columns that the readout takes.
pub open spec fn readout_columns(mem: MemorySample, counts: AgentCounts, avail: nat) -> nat {
    if mem.total_bytes == 0 {
        INSET as nat + counts_text(counts).len()
    } else {
        match readout_detail(mem, counts, avail) {
            ReadoutDetail::Full => full_width(
                percent_text(mem).len(),
                "  "@.len(),
                detail_text(mem).len(),
                "  │  "@.len(),
                counts_text(counts).len(),
            ),
            ReadoutDetail::Counts => counts_width(
                percent_text(mem).len(),
                "  "@.len(),
                counts_text(counts).len(),
            ),
            ReadoutDetail::Percent => INSET as nat + percent_text(mem).len(),
        }
    }
}

/// Where memory is known and there is room for the percent, the readout fits the columns that
/// there are.
pub proof fn readout_fits_where_it_can(mem: MemorySample, counts: AgentCounts, avail: nat)
    requires
        mem.total_bytes != 0,
        INSET as nat + percent_text(mem).len() <= avail,
    ensures
        readout_columns(mem, counts, avail) <= avail,
{
}

/// The texts of the readout are short, and every character of them takes one column.
proof fn lemma_readout_texts(mem: MemorySample, counts: AgentCounts)
    ensures
        plain_text(" "@),
        plain_text("  "@),
        plain_text("  │  "@),
        plain_text(percent_text(mem)),
        plain_text(detail_text(mem)),
        plain_text(counts_text(counts)),
        " "@.len() == INSET,
        "  "@.len() == 2,
        "  │  "@.len() == 5,
        percent_text(mem).len() <= 21,
        detail_text(mem).len() <= 85,
        counts_text(counts).len() <= 56,
{
    reveal_strlit(" ");
    reveal_strlit("  ");
    reveal_strlit("  │  ");
    reveal_strlit(" agents · ");
    reveal_strlit(" procs");
    reveal_strlit("%");
    reveal_strlit("/");
    decimal_is_short(counts.agents as nat);
    decimal_is_short(counts.procs as nat);
    decimal_is_short(mem.used_percent as nat);
    decimal_is_made_of_digits(counts.agents as nat);
    decimal_is_made_of_digits(counts.procs as nat);
    decimal_is_made_of_digits(mem.used_percent as nat);
    lemma_bytes_text(mem.used_bytes);
    lemma_bytes_text(mem.total_bytes);
}

/// A byte count in compact form is short, and every character of it takes one column.
proof fn lemma_bytes_text(bytes: u64)
    ensures
        plain_text(bytes_text(bytes as nat)),
        bytes_text(bytes as nat).len() <= 42,
{
    let n = bytes as nat;
    reveal_strlit("G");
    reveal_strlit("M");
    reveal_strlit("K");
    reveal_strlit("B");
    reveal_strlit(".");
    let tenths = rounded(10 * n, GIB as nat);
    rounded_is_nearest(10 * n, GIB as nat);
    rounded_is_nearest(n, MIB as nat);
    rounded_is_nearest(n, KIB as nat);
    lemma_decimal(tenths / 10);
    lemma_decimal(tenths % 10);
    lemma_decimal(rounded(n, MIB as nat));
    lemma_decimal(rounded(n, KIB as nat));
    lemma_decimal(n);
}

/// Decimal notation is short, and every digit takes one column.
proof fn lemma_decimal(n: nat)
    requires
        n <= u64::MAX,
    ensures
        plain_text(decimal(n)),
        decimal(n).len() <= 20,
{
    decimal_is_short(n);
    decimal_is_made_of_digits(n);
}

/// The readout is plain text, and takes the columns that are reckoned for it.
proof fn lemma_readout_is_plain(
    theme: Theme,
    color: Color,
    mem: MemorySample,
    counts: AgentCounts,
    avail: nat,
)
    ensures
        plain_pieces(readout(theme, color, mem, counts, avail)),
        columns(readout(theme, color, mem, counts, avail)) == readout_columns(mem, counts, avail),
        readout_columns(mem, counts, avail) <= 200,
{
    lemma_readout_texts(mem, counts);
    let pieces = readout(theme, color, mem, counts, avail);
    reveal_with_fuel(glyphs, 7);
    let two = pieces.take(2);
    assert(two.drop_last() =~= seq![pieces[0]]);
    assert(two.drop_last().drop_last() =~= Seq::empty());
    assert(columns(two) == INSET as nat + match pieces[1] {
        Piece::Inked(text, _) => text.len(),
        Piece::Other(_) => 0,
    });
    if pieces.len() == 2 {
        assert(pieces =~= two);
    } else {
        assert(pieces.take(3).drop_last() =~= two);
        assert(pieces.take(4).drop_last() =~= pieces.take(3));
        if pieces.len() == 4 {
            assert(pieces =~= pieces.take(4));
        } else {
            assert(pieces.take(5).drop_last() =~= pieces.take(4));
            assert(pieces.drop_last() =~= pieces.take(5));
        }
    }
}

/// The share of memory in use.
fn percent_string(mem: &MemorySample) -> (text: String)
    ensures
        text@ == percent_text(*mem),
{
    let mut text = String::new();
    push_decimal(&mut text, mem.used_percent as u64);
    text.append("%");
    assert(text@ =~= percent_text(*mem));
    text
}

/// Used and total memory.
fn detail_string(mem: &MemorySample) -> (text: String)
    ensures
        text@ == detail_text(*mem),
{
    let mut text = format_bytes(mem.used_bytes);
    text.append("/");
    text.append(format_bytes(mem.total_bytes).as_str());
    assert(text@ =~= detail_text(*mem));
    text
}

/// The columns that the parts of the readout take.
fn measured(percent: &str, gap: &str, detail: &str, separator: &str, counts: &str) -> (widths:
    ReadoutWidths)
    requires
        plain_text(percent@),
        plain_text(gap@),
        plain_text(detail@),
        plain_text(separator@),
        plain_text(counts@),
    ensures
        widths.percent == percent@.len(),
        widths.gap == gap@.len(),
        widths.detail == detail@.len(),
        widths.separator == separator@.len(),
        widths.counts == counts@.len(),
{
    ReadoutWidths {
        percent: text_width(percent),
        gap: text_width(gap),
        detail: text_width(detail),
        separator: text_width(separator),
        counts: text_width(counts),
    }
}

/// The columns that the readout takes.
fn readout_extent(mem: &MemorySample, counts: &AgentCounts, avail: usize) -> (extent: u32)
    ensures
        extent == readout_columns(*mem, *counts, avail as nat),
{
    proof {
        lemma_readout_texts(*mem, *counts);
    }
    let percent = percent_string(mem);
    let detail = detail_string(mem);
    let tally = counts_string(counts);
    let widths = measured(percent.as_str(), "  ", detail.as_str(), "  │  ", tally.as_str());
    let counts_alone: u32 = INSET as u32 + widths.counts as u32;
    if mem.total_bytes == 0 {
        return counts_alone;
    }
    match fitting_detail(&widths, avail) {
        ReadoutDetail::Full => counts_alone + widths.percent as u32 + widths.gap as u32
            + widths.detail as u32 + widths.separator as u32,
        ReadoutDetail::Counts => counts_alone + widths.percent as u32 + widths.gap as u32,
        ReadoutDetail::Percent => INSET as u32 + widths.percent as u32,
    }
}

/// The counts, in words.
fn counts_string(counts: &AgentCounts) -> (text: String)
    ensures
        text@ == counts_text(*counts),
{
    let mut text = String::new();
    push_decimal(&mut text, counts.agents as u64);
    text.append(" agents · ");
    push_decimal(&mut text, counts.procs as u64);
    text.append(" procs");
    assert(text@ =~= counts_text(*counts));
    text
}

/// Builds the readout line under the sparkline, dropping detail as `avail` (display cells)
/// shrinks. A leading space insets it from the border. Before the first sample
/// (`total_bytes == 0`) the memory figure is unknown, so only the counts show rather than a
/// misleading `0%`.
pub fn readout_line(
    theme: &Theme,
    color: Color,
    mem: &MemorySample,
    snapshot: &MetricsSnapshot,
    avail: usize,
) -> (line: Line<'static>)
    ensures
        row(line) == Row::Bare(readout(*theme, color, *mem, snapshot.counts, avail as nat)),
{
    let counts = counts_string(&snapshot.counts);
    let ghost wanted = readout(*theme, color, *mem, snapshot.counts, avail as nat);
    let mut spans: Vec<Span<'static>> = Vec::new();
    spans.push(raw_span(String::from_str(" ")));
    if mem.total_bytes == 0 {
        spans.push(fg_span(counts, theme.dimmed));
        assert(spans@.map_values(|span: Span<'static>| piece(span)) =~= wanted);
        return line_from(spans);
    }
    proof {
        lemma_readout_texts(*mem, snapshot.counts);
    }
    let percent = percent_string(mem);
    let detail = detail_string(mem);
    let gap: &str = "  ";
    let separator: &str = "  │  ";
    let widths = measured(percent.as_str(), gap, detail.as_str(), separator, counts.as_str());
    spans.push(bold_span(percent, color));
    match fitting_detail(&widths, avail) {
        ReadoutDetail::Full => {
            spans.push(raw_span(String::from_str(gap)));
            spans.push(fg_span(detail, theme.text));
            spans.push(fg_span(String::from_str(separator), theme.dimmed));
            spans.push(fg_span(counts, theme.dimmed));
        },
        ReadoutDetail::Counts => {
            spans.push(raw_span(String::from_str(gap)));
            spans.push(fg_span(counts, theme.dimmed));
        },
        ReadoutDetail::Percent => {},
    }
    assert(spans@.map_values(|span: Span<'static>| piece(span)) =~= wanted);
    line_from(spans)
}

/// The newest `width` samples, oldest first: a buffer longer than the strip does not drop the
/// most recent readings.
pub fn recent_samples(history: &VecDeque<u64>, width: usize) -> (recent: Vec<u64>)
    ensures
        recent@ == newest(history@, width as nat),
        recent@.len() == if history@.len() < width {
            history@.len()
        } else {
            width as nat
        },
        forall|i: int|
            0 <= i < recent@.len() ==> #[trigger] recent@[i] == history@[history@.len()
                - recent@.len() + i],
{
    let len: usize = history.len();
    let start: usize = len.saturating_sub(width);
    let mut recent: Vec<u64> = Vec::new();
    let mut i: usize = start;
    while i < len
        invariant
            start <= i <= len,
            len == history@.len(),
            recent@ == history@.subrange(start as int, i as int),
        decreases len - i,
    {
        recent.push(history[i]);
        i = i + 1;
        assert(recent@ =~= history@.subrange(start as int, i as int));
    }
    assert(recent@ =~= newest(history@, width as nat));
    recent
}

/// The sparkline's and the readout's part of the strip.
pub open spec fn strip_rows(area: Area) -> (Area, Area) {
    stacked(area, SPARKLINE_MIN_LINES, READOUT_LINES)
}

/// The cells that the strip draws on are cells of `screen`: a column for each sample that is
/// shown, and a column for each character of the readout.
pub open spec fn strip_on_screen(
    screen: Area,
    area: Area,
    samples: nat,
    snapshot: MetricsSnapshot,
) -> bool {
    let (spark_area, text_area) = strip_rows(area);
    let readout = readout_columns(snapshot.memory, snapshot.counts, area.width as nat);
    &&& spark_area.corner(samples, spark_area.height as nat).within(screen)
    &&& text_area.corner(readout, 1).within(screen)
}

/// No bar of a sparkline that is `lines` high, in eighths of a line, leaves the range of a
/// machine integer.
pub open spec fn bars_in_range(bars: Seq<u64>, lines: u16) -> bool {
    forall|i: int| 0 <= i < bars.len() ==> #[trigger] bars[i] * lines * 8 <= u64::MAX
}

/// The strip can be drawn: it draws on no cell outside the screen, and no sample is too large.
pub open spec fn strip_fits(
    grid: Grid,
    area: Area,
    history: Seq<u64>,
    snapshot: MetricsSnapshot,
) -> bool {
    area.is_empty() || {
        let bars = newest(history, area.width as nat);
        &&& grid.wf()
        &&& strip_on_screen(grid.area, area, bars.len(), snapshot)
        &&& bars_in_range(bars, strip_rows(area).0.height)
    }
}

/// A strip that lies on the screen as a whole, with samples of the scale it is drawn to, can be
/// drawn.
pub proof fn strip_on_the_screen_fits(
    grid: Grid,
    area: Area,
    history: Seq<u64>,
    snapshot: MetricsSnapshot,
)
    requires
        grid.wf(),
        area.inside(grid.area),
        forall|i: int| 0 <= i < history.len() ==> #[trigger] history[i] <= PER_MILLE_MAX,
    ensures
        strip_fits(grid, area, history, snapshot),
{
    let bars = newest(history, area.width as nat);
    let lines = strip_rows(area).0.height;
    assert forall|i: int| 0 <= i < bars.len() implies #[trigger] bars[i] * lines * 8
        <= u64::MAX by {
        let bar = bars[i];
        assert(bar == history[i + history.len() - bars.len()]);
        assert(bar * lines <= 1000 * 0xffff) by (nonlinear_arith)
            requires
                bar <= 1000,
                lines <= 0xffff,
        ;
    }
}

/// The screen with the strip on it.
pub open spec fn strip_drawn(
    grid: Grid,
    area: Area,
    theme: Theme,
    history: Seq<u64>,
    snapshot: MetricsSnapshot,
) -> Grid {
    if area.is_empty() {
        grid
    } else {
        let (spark_area, text_area) = strip_rows(area);
        let color = color_of(theme, snapshot.memory.band);
        line_drawn(
            sparkline_drawn(
                grid,
                spark_area,
                newest(history, spark_area.width as nat),
                PER_MILLE_MAX,
                color,
            ),
            text_area,
            readout(theme, color, snapshot.memory, snapshot.counts, text_area.width as nat),
        )
    }
}

/// The two rows tile the strip: the readout is its last line, the sparkline everything above,
/// and a strip of a single line is all sparkline.
pub proof fn rows_tile_the_strip(area: Area)
    requires
        area.y + area.height <= u16::MAX,
        area.height >= 1,
    ensures
        ({
            let (spark_area, text_area) = strip_rows(area);
            &&& spark_area.x == area.x == text_area.x
            &&& spark_area.width == area.width == text_area.width
            &&& spark_area.y == area.y
            &&& text_area.y == spark_area.y + spark_area.height
            &&& spark_area.height + text_area.height == area.height
            &&& spark_area.height >= 1
            &&& text_area.height == if area.height == 1 {
                0int
            } else {
                1int
            }
        }),
{
}

/// The strip is drawn inside its area.
proof fn lemma_strip_stays_inside(
    grid: Grid,
    area: Area,
    theme: Theme,
    history: Seq<u64>,
    snapshot: MetricsSnapshot,
)
    requires
        grid.wf(),
    ensures
        strip_drawn(grid, area, theme, history, snapshot).wf(),
        strip_drawn(grid, area, theme, history, snapshot).differs_only_in(grid, area),
{
    if !area.is_empty() {
        let (spark_area, text_area) = strip_rows(area);
        let color = color_of(theme, snapshot.memory.band);
        let bars = newest(history, spark_area.width as nat);
        let plotted = sparkline_drawn(grid, spark_area, bars, PER_MILLE_MAX, color);
        sparkline_stays_inside(grid, spark_area, bars, PER_MILLE_MAX, color);
        line_stays_inside(
            plotted,
            text_area,
            readout(theme, color, snapshot.memory, snapshot.counts, text_area.width as nat),
        );
        let drawn = strip_drawn(grid, area, theme, history, snapshot);
        assert forall|x: int, y: int| grid.area.covers(x, y) && !area.covers(x, y) implies
            #[trigger] drawn.at(x, y) == grid.at(x, y) by {
            assert(plotted.at(x, y) == grid.at(x, y));
        }
    }
}

/// What the cell in column `x` of line `y` shows with the strip drawn: what the bars make of it,
/// and then the readout.
pub proof fn strip_draws_bars_and_readout(
    grid: Grid,
    area: Area,
    theme: Theme,
    history: Seq<u64>,
    snapshot: MetricsSnapshot,
    x: int,
    y: int,
)
    requires
        grid.wf(),
        grid.area.covers(x, y),
        !area.is_empty(),
    ensures
        ({
            let (spark_area, text_area) = strip_rows(area);
            let color = color_of(theme, snapshot.memory.band);
            let bars = newest(history, area.width as nat);
            let pieces = readout(
                theme,
                color,
                snapshot.memory,
                snapshot.counts,
                area.width as nat,
            );
            let plotted = bar_cell(spark_area, bars, PER_MILLE_MAX, color, x, y, grid.at(x, y));
            strip_drawn(grid, area, theme, history, snapshot).at(x, y) == text_cell(
                text_area,
                pieces,
                x,
                y,
                plotted,
            )
        }),
{
    let (spark_area, text_area) = strip_rows(area);
    let color = color_of(theme, snapshot.memory.band);
    let bars = newest(history, area.width as nat);
    let pieces = readout(theme, color, snapshot.memory, snapshot.counts, area.width as nat);
    let plotted = sparkline_drawn(grid, spark_area, bars, PER_MILLE_MAX, color);
    sparkline_stays_inside(grid, spark_area, bars, PER_MILLE_MAX, color);
    painted_shows_what_was_painted(
        grid,
        |x: int, y: int, cell: Look|
            bar_cell(spark_area, bars, PER_MILLE_MAX, color, x, y, cell),
        x,
        y,
    );
    painted_shows_what_was_painted(
        plotted,
        |x: int, y: int, cell: Look| text_cell(text_area, pieces, x, y, cell),
        x,
        y,
    );
}

/// The vertical scale is fixed: what a column of the strip shows depends on its own sample
/// against the scale of [`PER_MILLE_MAX`], and never on the other samples.
pub proof fn column_depends_on_its_own_sample(
    grid: Grid,
    area: Area,
    theme: Theme,
    one: Seq<u64>,
    other: Seq<u64>,
    snapshot: MetricsSnapshot,
    i: int,
    y: int,
)
    requires
        grid.wf(),
        grid.area.covers(area.x + i, y),
        one.len() == other.len(),
        0 <= i < newest(one, area.width as nat).len(),
        newest(one, area.width as nat)[i] == newest(other, area.width as nat)[i],
    ensures
        strip_drawn(grid, area, theme, one, snapshot).at(area.x + i, y) == strip_drawn(
            grid,
            area,
            theme,
            other,
            snapshot,
        ).at(area.x + i, y),
{
    if !area.is_empty() {
        strip_draws_bars_and_readout(grid, area, theme, one, snapshot, area.x + i, y);
        strip_draws_bars_and_readout(grid, area, theme, other, snapshot, area.x + i, y);
    }
}

/// A bar is as high as its sample's share of the scale, rounded down to eighths of a line: a
/// sample of zero leaves its column blank, one of the whole scale fills it, and a larger sample
/// never has a lower bar.
pub proof fn bar_is_its_share_of_the_scale(smaller: u64, larger: u64, lines: u16)
    requires
        smaller <= larger <= PER_MILLE_MAX,
    ensures
        bar_eighths(0, PER_MILLE_MAX, lines) == 0,
        bar_eighths(PER_MILLE_MAX, PER_MILLE_MAX, lines) == 8 * lines,
        0 <= bar_eighths(smaller, PER_MILLE_MAX, lines) <= bar_eighths(
            larger,
            PER_MILLE_MAX,
            lines,
        ) <= 8 * lines,
        PER_MILLE_MAX * bar_eighths(larger, PER_MILLE_MAX, lines) <= larger * lines * 8
            < PER_MILLE_MAX * (bar_eighths(larger, PER_MILLE_MAX, lines) + 1),
{
    assert(0 <= smaller * lines <= larger * lines <= 1000 * lines) by (nonlinear_arith)
        requires
            smaller <= larger <= 1000,
    ;
}

/// The sparkline shows the newest samples, one in each column, as blocks that stand on its last
/// line, in the colour of the pressure band. Of the cells it draws on, it changes the symbol and
/// the foreground alone.
pub proof fn sparkline_shows_the_newest_samples(
    grid: Grid,
    area: Area,
    theme: Theme,
    history: Seq<u64>,
    snapshot: MetricsSnapshot,
    i: int,
    lines_below: int,
)
    requires
        grid.wf(),
        !area.is_empty(),
        strip_on_screen(
            grid.area,
            area,
            newest(history, area.width as nat).len(),
            snapshot,
        ),
        0 <= i < newest(history, area.width as nat).len(),
        0 <= lines_below < strip_rows(area).0.height,
    ensures
        ({
            let spark_area = strip_rows(area).0;
            let x = area.x + i;
            let y = spark_area.y + spark_area.height - 1 - lines_below;
            let sample = newest(history, area.width as nat)[i];
            let eighths = bar_eighths(sample, PER_MILLE_MAX, spark_area.height);
            let color = color_of(theme, snapshot.memory.band);
            strip_drawn(grid, area, theme, history, snapshot).at(x, y) == (Look {
                symbol: block_symbol(eighths - 8 * lines_below),
                fg: color,
                ..grid.at(x, y)
            })
        }),
{
    let spark_area = strip_rows(area).0;
    let y = spark_area.y + spark_area.height - 1 - lines_below;
    strip_draws_bars_and_readout(grid, area, theme, history, snapshot, area.x + i, y);
}

/// The readout is written on the last line of the strip, a character in each column, as far as
/// the strip is wide.
pub proof fn readout_is_written_below(
    grid: Grid,
    area: Area,
    theme: Theme,
    history: Seq<u64>,
    snapshot: MetricsSnapshot,
    i: int,
)
    requires
        grid.wf(),
        area.height >= 2,
        area.y + area.height <= u16::MAX,
        strip_on_screen(
            grid.area,
            area,
            newest(history, area.width as nat).len(),
            snapshot,
        ),
        0 <= i < area.width,
        i < readout_columns(snapshot.memory, snapshot.counts, area.width as nat),
    ensures
        ({
            let (x, y) = (area.x + i, area.y + area.height - 1);
            let color = color_of(theme, snapshot.memory.band);
            let pieces = readout(
                theme,
                color,
                snapshot.memory,
                snapshot.counts,
                area.width as nat,
            );
            strip_drawn(grid, area, theme, history, snapshot).at(x, y) == grid.at(x, y).inked(
                seq![glyphs(pieces)[i].0],
                glyphs(pieces)[i].1,
            )
        }),
{
    lemma_readout_is_plain(
        theme,
        color_of(theme, snapshot.memory.band),
        snapshot.memory,
        snapshot.counts,
        area.width as nat,
    );
    strip_draws_bars_and_readout(
        grid,
        area,
        theme,
        history,
        snapshot,
        area.x + i,
        area.y + area.height - 1,
    );
}

/// What the first spans hold comes first.
proof fn lemma_glyphs_of_the_first(pieces: Seq<Piece>, count: int)
    requires
        0 <= count <= pieces.len(),
    ensures
        glyphs(pieces.take(count)).len() <= glyphs(pieces).len(),
        forall|i: int|
            0 <= i < glyphs(pieces.take(count)).len() ==> #[trigger] glyphs(pieces)[i] == glyphs(
                pieces.take(count),
            )[i],
    decreases pieces.len(),
{
    if count == pieces.len() {
        assert(pieces.take(count) =~= pieces);
    } else {
        lemma_glyphs_of_the_first(pieces.drop_last(), count);
        assert(pieces.drop_last().take(count) =~= pieces.take(count));
    }
}

/// The percent is written behind the inset, bold and in the colour of the pressure band, which is
/// the colour of the sparkline too.
pub proof fn percent_has_the_bands_colour(
    grid: Grid,
    area: Area,
    theme: Theme,
    history: Seq<u64>,
    snapshot: MetricsSnapshot,
    k: int,
)
    requires
        grid.wf(),
        area.height >= 2,
        area.y + area.height <= u16::MAX,
        strip_on_screen(
            grid.area,
            area,
            newest(history, area.width as nat).len(),
            snapshot,
        ),
        snapshot.memory.total_bytes != 0,
        0 <= k < percent_text(snapshot.memory).len(),
        INSET + k < area.width,
    ensures
        ({
            let (x, y) = (area.x + INSET + k, area.y + area.height - 1);
            let cell = strip_drawn(grid, area, theme, history, snapshot).at(x, y);
            &&& cell.symbol == seq![percent_text(snapshot.memory)[k]]
            &&& cell.fg == color_of(theme, snapshot.memory.band)
            &&& cell.modifiers & BOLD == BOLD
        }),
{
    let mem = snapshot.memory;
    let color = color_of(theme, mem.band);
    let avail = area.width as nat;
    let pieces = readout(theme, color, mem, snapshot.counts, avail);
    let two = pieces.take(2);
    lemma_readout_texts(mem, snapshot.counts);
    lemma_readout_is_plain(theme, color, mem, snapshot.counts, avail);
    lemma_glyphs_of_the_first(pieces, 2);
    reveal_with_fuel(glyphs, 3);
    assert(two.drop_last() =~= seq![pieces[0]]);
    assert(two.drop_last().drop_last() =~= Seq::empty());
    assert(glyphs(two)[INSET + k] == (percent_text(mem)[k], Ink::BoldFg(color)));
    readout_is_written_below(grid, area, theme, history, snapshot, INSET + k);
    let before = grid.at(area.x + INSET + k, area.y + area.height - 1).modifiers;
    assert((before | 1) & 1 == 1) by (bit_vector);
}

/// Renders the memory-pressure strip into `area`, and nowhere else.
///
/// `history` is the caller-owned ring buffer of headroom samples, newest at the back, each stored
/// as per-mille of the share in use (`0..=1000`). The sparkline plots against a fixed `1000`
/// ceiling so the vertical scale is a stable `0..100%`. When the buffer holds more samples than
/// the sparkline is wide, the newest `width` are shown.
pub fn render(
    frame: &mut Frame<'_>,
    area: Area,
    theme: &Theme,
    history: &VecDeque<u64>,
    snapshot: &MetricsSnapshot,
)
    requires
        strip_fits(frame_grid(*old(frame)), area, history@, *snapshot),
    ensures
        frame_grid(*final(frame)) == strip_drawn(
            frame_grid(*old(frame)),
            area,
            *theme,
            history@,
            *snapshot,
        ),
        frame_grid(*final(frame)).differs_only_in(frame_grid(*old(frame)), area),
{
    if area.width == 0 || area.height == 0 {
        return;
    }
    // Stack vertically: sparkline on top, the readout on the bottom row. The strip sits under the
    // narrow list column, so a side-by-side split would leave too few columns for the counts.
    let (spark_area, text_area) = stack(area, SPARKLINE_MIN_LINES, READOUT_LINES);
    let mem = &snapshot.memory;
    let color = band_color(theme, mem.band);
    let recent = recent_samples(history, spark_area.width as usize);
    draw_sparkline(frame, spark_area, recent, PER_MILLE_MAX, color);
    let line = readout_line(theme, color, mem, snapshot, text_area.width as usize);
    proof {
        lemma_readout_is_plain(*theme, color, *mem, snapshot.counts, text_area.width as nat);
        lemma_strip_stays_inside(frame_grid(*old(frame)), area, *theme, history@, *snapshot);
    }
    draw_line(frame, text_area, line);
}

/// Renders the strip where it can be drawn, and says whether it was. Either way nothing outside
/// `area` changes.
pub fn render_if_fits(
    frame: &mut Frame<'_>,
    area: Area,
    theme: &Theme,
    history: &VecDeque<u64>,
    snapshot: &MetricsSnapshot,
) -> (drawn: bool)
    ensures
        drawn == strip_fits(frame_grid(*old(frame)), area, history@, *snapshot),
        frame_grid(*final(frame)) == if drawn {
            strip_drawn(frame_grid(*old(frame)), area, *theme, history@, *snapshot)
        } else {
            frame_grid(*old(frame))
        },
        frame_grid(*final(frame)).differs_only_in(frame_grid(*old(frame)), area),
{
    if area.width != 0 && area.height != 0 {
        let (screen, cells) = frame_extent(frame);
        let (width, height): (u16, u16) = (screen.width, screen.height);
        assert(width * height <= u16::MAX * u16::MAX) by (nonlinear_arith);
        let right: u32 = screen.x as u32 + width as u32;
        let bottom: u32 = screen.y as u32 + height as u32;
        if right > u16::MAX as u32 || bottom > u16::MAX as u32 || cells as u64 != width as u64
            * height as u64 {
            return false;
        }
        let (spark_area, text_area) = stack(area, SPARKLINE_MIN_LINES, READOUT_LINES);
        let bars = recent_samples(history, area.width as usize);
        let readout = readout_extent(&snapshot.memory, &snapshot.counts, area.width as usize);
        let bars_shown: u16 = bars.len() as u16;
        if !corner_within(spark_area, bars_shown as u32, spark_area.height, screen)
            || !corner_within(text_area, readout, 1, screen) {
            return false;
        }
        if !bars_drawable(&bars, spark_area.height) {
            return false;
        }
    }
    render(frame, area, theme, history, snapshot);
    true
}

/// Whether every cell of `area`'s first `columns` columns and `lines` lines is one of `screen`'s.
fn corner_within(area: Area, columns: u32, lines: u16, screen: Area) -> (within: bool)
    ensures
        within == area.corner(columns as nat, lines as nat).within(screen),
{
    let width: u32 = if columns < area.width as u32 {
        columns
    } else {
        area.width as u32
    };
    let height: u16 = if lines < area.height {
        lines
    } else {
        area.height
    };
    width == 0 || height == 0 || (screen.x <= area.x && screen.y <= area.y && area.x as u32 + width
        <= screen.x as u32 + screen.width as u32 && area.y as u32 + height as u32
        <= screen.y as u32 + screen.height as u32)
}

/// No bar of a sparkline that is `lines` high leaves the range of a machine integer.
fn bars_drawable(bars: &Vec<u64>, lines: u16) -> (drawable: bool)
    ensures
        drawable == bars_in_range(bars@, lines),
{
    let mut i: usize = 0;
    while i < bars.len()
        invariant
            i <= bars@.len(),
            forall|j: int| 0 <= j < i ==> #[trigger] bars@[j] * lines * 8 <= u64::MAX,
        decreases bars@.len() - i,
    {
        let bar: u64 = bars[i];
        assert(bar * lines <= u64::MAX * u16::MAX) by (nonlinear_arith);
        let eighths: u128 = bar as u128 * lines as u128 * 8;
        if eighths > u64::MAX as u128 {
            return false;
        }
        i = i + 1;
    }
    true
}

/// The colour is the theme's for running, waiting or error, as memory is well, tight or short.
pub proof fn colour_is_the_themes_for_the_band(theme: Theme, band: PressureBand)
    ensures
        band is Normal ==> color_of(theme, band) == theme.running,
        band is Warn ==> color_of(theme, band) == theme.waiting,
        band is Critical ==> color_of(theme, band) == theme.error,
{
}

/// A count of GiB and more is written in tenths of a GiB, to the nearest and halfway up, and
/// without a tenth that is zero: `tenths` are the tenths that are nearest.
pub proof fn gib_are_written_in_tenths(n: nat, tenths: nat)
    requires
        n >= 0x4000_0000,
        2 * tenths * 0x4000_0000 <= 2 * (10 * n) + 0x4000_0000 < 2 * (tenths + 1) * 0x4000_0000,
    ensures
        tenths % 10 == 0 ==> bytes_text(n) == decimal(tenths / 10) + "G"@,
        tenths % 10 != 0 ==> bytes_text(n) == decimal(tenths / 10) + "."@ + decimal(tenths % 10)
            + "G"@,
{
    lemma_nearest(10 * n, tenths, 0x4000_0000);
}

/// A count below a GiB is written in the largest of MiB, KiB and bytes that it reaches, to the
/// nearest whole number and halfway up: `number` is the number that is nearest.
pub proof fn smaller_counts_are_written_in_whole_units(n: nat, number: nat)
    ensures
        0x10_0000 <= n < 0x4000_0000 && 2 * number * 0x10_0000 <= 2 * n + 0x10_0000 < 2 * (number
            + 1) * 0x10_0000 ==> bytes_text(n) == decimal(number) + "M"@,
        0x400 <= n < 0x10_0000 && 2 * number * 0x400 <= 2 * n + 0x400 < 2 * (number + 1) * 0x400
            ==> bytes_text(n) == decimal(number) + "K"@,
        n < 0x400 ==> bytes_text(n) == decimal(n) + "B"@,
{
    if 0x10_0000 <= n && 2 * number * 0x10_0000 <= 2 * n + 0x10_0000 < 2 * (number + 1)
        * 0x10_0000 {
        lemma_nearest(n, number, 0x10_0000);
    }
    if 0x400 <= n && 2 * number * 0x400 <= 2 * n + 0x400 < 2 * (number + 1) * 0x400 {
        lemma_nearest(n, number, 0x400);
    }
}

/// Only one number of units is the nearest.
proof fn lemma_nearest(n: nat, number: nat, unit: nat)
    requires
        unit > 0,
        2 * number * unit <= 2 * n + unit < 2 * (number + 1) * unit,
    ensures
        rounded(n, unit) == number,
{
    let q = rounded(n, unit);
    rounded_is_nearest(n, unit);
    assert(q == number) by (nonlinear_arith)
        requires
            unit > 0,
            2 * number * unit <= 2 * n + unit,
            2 * n + unit < 2 * (number + 1) * unit,
            2 * (q * unit) <= 2 * n + unit,
            2 * n < 2 * (q * unit) + unit,
    ;
}

/// The letter behind a byte count stands for 2^30, 2^20, 2^10 or one byte, and a number with a
/// point has one decimal.
pub proof fn units_are_powers_of_two(number: Seq<char>, tenth: char)
    requires
        number.len() >= 1,
        forall|i: int| 0 <= i < number.len() ==> '0' <= #[trigger] number[i] <= '9',
        '0' <= tenth <= '9',
    ensures
        tenfold_bytes(number.push('G')) == 10 * decimal_value(number) * 0x4000_0000,
        tenfold_bytes(number.push('M')) == 10 * decimal_value(number) * 0x10_0000,
        tenfold_bytes(number.push('K')) == 10 * decimal_value(number) * 0x400,
        tenfold_bytes(number.push('B')) == 10 * decimal_value(number),
        tenfold_bytes(number.push('.').push(tenth).push('G')) == (10 * decimal_value(number)
            + (tenth as int - '0' as int)) * 0x4000_0000,
{
    assert(number.push('G').drop_last() =~= number);
    assert(number.push('M').drop_last() =~= number);
    assert(number.push('K').drop_last() =~= number);
    assert(number.push('B').drop_last() =~= number);
    let text = number.push('.').push(tenth);
    assert(text.push('G').drop_last() =~= text);
    assert(text.take(text.len() - 2) =~= number);
    assert(text.skip(text.len() - 1) =~= Seq::empty().push(tenth));
    decimal_value_is_positional(Seq::empty(), tenth);
}

/// The detail is shown where everything has room, and dropped before the counts are.
pub proof fn detail_is_shown_where_it_has_room(
    percent: nat,
    gap: nat,
    detail: nat,
    separator: nat,
    counts: nat,
    avail: nat,
)
    ensures
        ({
            let shown = detail_for(percent, gap, detail, separator, counts, avail);
            &&& shown is Full <==> 1 + percent + gap + detail + separator + counts <= avail
            &&& shown is Percent <==> 1 + percent + gap + counts > avail
        }),
{
}

/// Where memory is known, the second piece of the readout is a run of digits and a percent sign,
/// and the digits read back as the share in use.
pub proof fn readout_percent_reads_back(
    theme: Theme,
    color: Color,
    mem: MemorySample,
    counts: AgentCounts,
    avail: nat,
)
    requires
        mem.total_bytes != 0,
    ensures
        ({
            let pieces = readout(theme, color, mem, counts, avail);
            &&& pieces.len() >= 2
            &&& (pieces[1] matches Piece::Inked(text, ink) && {
                let number = text.drop_last();
                &&& ink == Ink::BoldFg(color)
                &&& text.len() >= 2
                &&& text.last() == '%'
                &&& forall|i: int| 0 <= i < number.len() ==> '0' <= #[trigger] number[i] <= '9'
                &&& decimal_value(number) == mem.used_percent
                &&& number == decimal(mem.used_percent as nat)
            })
        }),
{
    reveal_strlit("%");
    decimal_is_made_of_digits(mem.used_percent as nat);
    decimal_reads_back(mem.used_percent as nat);
    assert(percent_text(mem).drop_last() =~= decimal(mem.used_percent as nat));
}

/// The readout, piece by piece: what it says, in which look, and how much of it. Every piece is
/// as wide as its text is long.
pub proof fn readout_piece_by_piece(
    theme: Theme,
    color: Color,
    mem: MemorySample,
    counts: AgentCounts,
    avail: nat,
)
    ensures
        ({
            let percent = decimal(mem.used_percent as nat) + "%"@;
            let detail = bytes_text(mem.used_bytes as nat) + "/"@ + bytes_text(
                mem.total_bytes as nat,
            );
            let tally = decimal(counts.agents as nat) + " agents · "@ + decimal(
                counts.procs as nat,
            ) + " procs"@;
            let pieces = readout(theme, color, mem, counts, avail);
            let full = 1 + percent.len() + 2 + detail.len() + 5 + tally.len();
            let short = 1 + percent.len() + 2 + tally.len();
            if mem.total_bytes == 0 {
                pieces == seq![
                    Piece::Inked(" "@, Ink::Plain),
                    Piece::Inked(tally, Ink::Fg(theme.dimmed)),
                ]
            } else if full <= avail {
                pieces == seq![
                    Piece::Inked(" "@, Ink::Plain),
                    Piece::Inked(percent, Ink::BoldFg(color)),
                    Piece::Inked("  "@, Ink::Plain),
                    Piece::Inked(detail, Ink::Fg(theme.text)),
                    Piece::Inked("  │  "@, Ink::Fg(theme.dimmed)),
                    Piece::Inked(tally, Ink::Fg(theme.dimmed)),
                ]
            } else if short <= avail {
                pieces == seq![
                    Piece::Inked(" "@, Ink::Plain),
                    Piece::Inked(percent, Ink::BoldFg(color)),
                    Piece::Inked("  "@, Ink::Plain),
                    Piece::Inked(tally, Ink::Fg(theme.dimmed)),
                ]
            } else {
                pieces == seq![
                    Piece::Inked(" "@, Ink::Plain),
                    Piece::Inked(percent, Ink::BoldFg(color)),
                ]
            }
        }),
{
    reveal_strlit("  ");
    reveal_strlit("  │  ");
}

/// The readout takes the columns that its characters do.
pub proof fn readout_takes_its_columns(
    theme: Theme,
    color: Color,
    mem: MemorySample,
    counts: AgentCounts,
    avail: nat,
)
    ensures
        readout_columns(mem, counts, avail) == glyphs(
            readout(theme, color, mem, counts, avail),
        ).len(),
{
    lemma_readout_is_plain(theme, color, mem, counts, avail);
}

/// The rows of any strip: of the lines that can be addressed, the readout has the last one and
/// the sparkline the others, at least one.
pub proof fn rows_of_the_strip(area: Area)
    ensures
        ({
            let lines: int = if area.y + area.height <= 65535 {
                area.height as int
            } else {
                65535 - area.y
            };
            let (spark_area, text_area) = strip_rows(area);
            &&& spark_area.x == area.x && spark_area.width == area.width
            &&& text_area.x == area.x && text_area.width == area.width
            &&& spark_area.y == area.y
            &&& text_area.y == area.y + spark_area.height
            &&& lines >= 2 ==> spark_area.height == lines - 1 && text_area.height == 1
            &&& lines <= 1 ==> spark_area.height == lines && text_area.height == 0
        }),
{
}

/// An empty area leaves the screen as it is.
pub proof fn empty_strip_draws_nothing(
    grid: Grid,
    area: Area,
    theme: Theme,
    history: Seq<u64>,
    snapshot: MetricsSnapshot,
)
    requires
        area.width == 0 || area.height == 0,
    ensures
        strip_drawn(grid, area, theme, history, snapshot) == grid,
        strip_fits(grid, area, history, snapshot),
{
}

/// The strip, cell by cell. `shown` is how many samples there are columns for, the newest of
/// them; `lines` is how many lines the sparkline has. A column shows its sample on the scale of
/// 1000, from the last line of the sparkline up, in the colour of the band; the last line of the
/// strip shows the readout; every other cell is as it was.
pub proof fn strip_cell_by_cell(
    grid: Grid,
    area: Area,
    theme: Theme,
    history: Seq<u64>,
    snapshot: MetricsSnapshot,
    x: int,
    y: int,
)
    requires
        grid.wf(),
        grid.area.covers(x, y),
        area.width >= 1,
        area.height >= 1,
        area.y + area.height <= 65535,
    ensures
        ({
            let shown: int = if history.len() < area.width {
                history.len() as int
            } else {
                area.width as int
            };
            let lines: int = if area.height == 1 {
                1
            } else {
                area.height - 1
            };
            let color = color_of(theme, snapshot.memory.band);
            let written = glyphs(
                readout(theme, color, snapshot.memory, snapshot.counts, area.width as nat),
            );
            let i = x - area.x;
            let before = grid.at(x, y);
            let cell = strip_drawn(grid, area, theme, history, snapshot).at(x, y);
            if 0 <= i < shown && area.y <= y < area.y + lines {
                let sample = history[history.len() - shown + i];
                let eighths = (sample * lines * 8) / 1000 - 8 * (area.y + lines - 1 - y);
                cell == (Look { symbol: block_symbol(eighths), fg: color, ..before })
            } else if 0 <= i < area.width && i < written.len() && area.height >= 2 && y == area.y
                + area.height - 1 {
                cell == before.inked(seq![written[i].0], written[i].1)
            } else {
                cell == before
            }
        }),
{
    strip_draws_bars_and_readout(grid, area, theme, history, snapshot, x, y);
    newest_is_the_tail(history, area.width as nat);
}

/// A strip can be drawn exactly where the screen has every cell that it draws on, and no bar,
/// counted in eighths of a line, leaves the range of 64 bits.
pub proof fn strip_fits_where_its_cells_are(
    grid: Grid,
    area: Area,
    theme: Theme,
    history: Seq<u64>,
    snapshot: MetricsSnapshot,
)
    requires
        area.width >= 1,
        area.height >= 1,
    ensures
        ({
            let shown: int = if history.len() < area.width {
                history.len() as int
            } else {
                area.width as int
            };
            let (spark_area, text_area) = strip_rows(area);
            let color = color_of(theme, snapshot.memory.band);
            let written = glyphs(
                readout(theme, color, snapshot.memory, snapshot.counts, area.width as nat),
            ).len();
            strip_fits(grid, area, history, snapshot) <==> {
                &&& grid.wf()
                &&& forall|x: int, y: int|
                    area.x <= x < area.x + shown && spark_area.y <= y < spark_area.y
                        + spark_area.height ==> #[trigger] grid.area.covers(x, y)
                &&& forall|x: int, y: int|
                    area.x <= x < area.x + area.width && x < area.x + written && text_area.y <= y
                        < text_area.y + text_area.height ==> #[trigger] grid.area.covers(x, y)
                &&& forall|i: int|
                    history.len() - shown <= i < history.len() ==> #[trigger] history[i]
                        * spark_area.height * 8 <= 0xffff_ffff_ffff_ffff
            }
        }),
{
    let color = color_of(theme, snapshot.memory.band);
    let bars = newest(history, area.width as nat);
    let (spark_area, text_area) = strip_rows(area);
    let written = readout_columns(snapshot.memory, snapshot.counts, area.width as nat);
    let plot = spark_area.corner(bars.len(), spark_area.height as nat);
    let line = text_area.corner(written, 1);
    newest_is_the_tail(history, area.width as nat);
    rows_of_the_strip(area);
    readout_takes_its_columns(theme, color, snapshot.memory, snapshot.counts, area.width as nat);
    within_means_every_cell(plot, grid.area);
    within_means_every_cell(line, grid.area);
    assert(bars_in_range(bars, spark_area.height) <==> forall|i: int|
        history.len() - bars.len() <= i < history.len() ==> #[trigger] history[i]
            * spark_area.height * 8 <= 0xffff_ffff_ffff_ffff) by {
        if bars_in_range(bars, spark_area.height) {
            assert forall|i: int| history.len() - bars.len() <= i < history.len() implies
                #[trigger] history[i] * spark_area.height * 8 <= 0xffff_ffff_ffff_ffff by {
                assert(bars[i - (history.len() - bars.len())] == history[i]);
            }
        }
    }
}

} // verus!
