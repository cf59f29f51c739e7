//! The terminal, as `ratatui` draws it and `unicode_width` measures it.
//!
//! Colours, spans, lines and frames are opaque to the proofs. What a span or a line holds, and
//! which cells a frame shows, is spoken of through the names [`piece`], [`row`] and
//! [`frame_grid`]; the functions below make the calls.
use ratatui::layout::{Constraint, Direction, Layout, Rect};
use ratatui::style::{Color, Style, Stylize};
use ratatui::text::{Line, Span};
use ratatui::widgets::{Paragraph, RenderDirection, Sparkline};
use ratatui::Frame;
use unicode_width::UnicodeWidthStr;
use vstd::arithmetic::div_mod::lemma_fundamental_div_mod_converse;
use vstd::prelude::*;

verus! {

/// `ratatui::style::Color`, carried as it is.
#[verifier::external_type_specification]
#[verifier::external_body]
pub struct ExColor(ratatui::style::Color);

/// `ratatui::text::Span`, a run of text in one style.
#[verifier::external_type_specification]
#[verifier::external_body]
pub struct ExSpan<'a>(ratatui::text::Span<'a>);

/// `ratatui::text::Line`, a row of spans.
#[verifier::external_type_specification]
#[verifier::external_body]
pub struct ExLine<'a>(ratatui::text::Line<'a>);

/// `ratatui::Frame`, the screen that is being drawn.
#[verifier::external_type_specification]
#[verifier::external_body]
pub struct ExFrame<'a>(ratatui::Frame<'a>);

/// A rectangle of character cells.
#[derive(Clone, Copy, Debug, PartialEq, Eq, Structural)]
pub struct Area {
    pub x: u16,
    pub y: u16,
    pub width: u16,
    pub height: u16,
}

impl Area {
    /// The rectangle has no cell.
    pub open spec fn is_empty(self) -> bool {
        self.width == 0 || self.height == 0
    }

    /// Whether the cell in column `x` of line `y` is one of the rectangle's.
    pub open spec fn covers(self, x: int, y: int) -> bool {
        &&& self.x <= x < self.x + self.width
        &&& self.y <= y < self.y + self.height
    }

    /// The rectangle does not reach beyond the last column or line that can be addressed.
    pub open spec fn addressable(self) -> bool {
        &&& self.x + self.width <= u16::MAX
        &&& self.y + self.height <= u16::MAX
    }

    /// The rectangle lies inside `outer`.
    pub open spec fn inside(self, outer: Area) -> bool {
        &&& outer.x <= self.x
        &&& outer.y <= self.y
        &&& self.x + self.width <= outer.x + outer.width
        &&& self.y + self.height <= outer.y + outer.height
    }

    /// What the rectangle has of its first `columns` columns and `lines` lines.
    pub open spec fn corner(self, columns: nat, lines: nat) -> Area {
        Area {
            width: if columns < self.width { columns as u16 } else { self.width },
            height: if lines < self.height { lines as u16 } else { self.height },
            ..self
        }
    }

    /// Every cell of the rectangle is one of `outer`'s.
    pub open spec fn within(self, outer: Area) -> bool {
        self.is_empty() || self.inside(outer)
    }
}

/// The modifier bit that stands for bold.
pub const BOLD: u16 = 1;

/// How a run of text looks.
pub enum Ink {
    /// As the terminal has it.
    Plain,
    /// In this foreground colour.
    Fg(Color),
    /// In this foreground colour, bold.
    BoldFg(Color),
}

/// What one character cell of the screen holds: every field of a `ratatui::buffer::Cell`. The
/// feature `underline-color`, which would add one, is off.
#[verifier::ext_equal]
pub struct Look {
    pub symbol: Seq<char>,
    pub fg: Color,
    pub bg: Color,
    /// The modifiers, as the bits that stand for them.
    pub modifiers: u16,
    /// Whether the cell is left out when the screen is brought up to date.
    pub skip: bool,
}

impl Look {
    /// The cell with another symbol in it, which looks as `ink` says. What `ink` does not speak
    /// of stays.
    pub open spec fn inked(self, symbol: Seq<char>, ink: Ink) -> Look {
        match ink {
            Ink::Plain => Look { symbol, ..self },
            Ink::Fg(color) => Look { symbol, fg: color, ..self },
            Ink::BoldFg(color) => Look {
                symbol,
                fg: color,
                modifiers: self.modifiers | BOLD,
                ..self
            },
        }
    }
}

/// The cells of a screen: the rectangle they fill, and the cells line by line.
#[verifier::ext_equal]
pub struct Grid {
    pub area: Area,
    pub cells: Seq<Look>,
}

impl Grid {
    /// There is one cell for each position of the rectangle.
    pub open spec fn wf(self) -> bool {
        &&& self.area.addressable()
        &&& self.cells.len() == self.area.width as int * self.area.height as int
    }

    /// The cell in column `x` of line `y`.
    pub open spec fn at(self, x: int, y: int) -> Look {
        self.cells[(y - self.area.y) * self.area.width + (x - self.area.x)]
    }

    /// The screen with each cell as `paint` makes it of its column, its line and the cell.
    pub open spec fn painted(self, paint: spec_fn(int, int, Look) -> Look) -> Grid {
        Grid {
            area: self.area,
            cells: Seq::new(
                self.cells.len(),
                |k: int|
                    paint(
                        self.area.x + k % (self.area.width as int),
                        self.area.y + k / (self.area.width as int),
                        self.cells[k],
                    ),
            ),
        }
    }

    /// `self` is `before`, drawn on nowhere but inside `area`.
    pub open spec fn differs_only_in(self, before: Grid, area: Area) -> bool {
        &&& self.area == before.area
        &&& self.cells.len() == before.cells.len()
        &&& forall|x: int, y: int|
            before.area.covers(x, y) && !area.covers(x, y) ==> #[trigger] self.at(x, y)
                == before.at(x, y)
    }
}

/// What a span holds: its text and how it looks, or a span in another style.
pub enum Piece {
    Inked(Seq<char>, Ink),
    Other(Span<'static>),
}

/// What a line holds: its spans, or a line that has a style or an alignment of its own.
pub enum Row {
    Bare(Seq<Piece>),
    Other(Line<'static>),
}

/// What `span` holds.
pub uninterp spec fn piece(span: Span<'static>) -> Piece;

/// What `line` holds.
pub uninterp spec fn row(line: Line<'static>) -> Row;

/// What `frame` shows: the rectangle and the content of its buffer.
pub uninterp spec fn frame_grid(frame: Frame<'_>) -> Grid;

/// A printable ASCII character, a middle dot or a vertical rule: by itself one user-perceived
/// character, one column wide.
pub open spec fn one_column(c: char) -> bool {
    ' ' <= c <= '~' || c == '·' || c == '│'
}

/// `text` is made of one-column characters, so that it takes as many columns as it has of them.
pub open spec fn plain_text(text: Seq<char>) -> bool {
    forall|i: int| 0 <= i < text.len() ==> one_column(#[trigger] text[i])
}

/// The characters of spans next to each other, each with its look.
pub open spec fn glyphs(pieces: Seq<Piece>) -> Seq<(char, Ink)>
    decreases pieces.len(),
{
    if pieces.len() == 0 {
        Seq::empty()
    } else {
        glyphs(pieces.drop_last()) + match pieces.last() {
            Piece::Inked(text, ink) => text.map_values(|c: char| (c, ink)),
            Piece::Other(_) => Seq::empty(),
        }
    }
}

/// The columns that spans of plain text take next to each other: one for each character.
pub open spec fn columns(pieces: Seq<Piece>) -> nat {
    glyphs(pieces).len()
}

/// The spans hold plain text, in a style of the library's.
pub open spec fn plain_pieces(pieces: Seq<Piece>) -> bool {
    forall|i: int|
        0 <= i < pieces.len() ==> (#[trigger] pieces[i] matches Piece::Inked(text, _)
            && plain_text(text))
}

/// The block that fills a cell from below by so many eighths.
pub open spec fn block_symbol(eighths: int) -> Seq<char> {
    if eighths <= 0 {
        " "@
    } else if eighths == 1 {
        "▁"@
    } else if eighths == 2 {
        "▂"@
    } else if eighths == 3 {
        "▃"@
    } else if eighths == 4 {
        "▄"@
    } else if eighths == 5 {
        "▅"@
    } else if eighths == 6 {
        "▆"@
    } else if eighths == 7 {
        "▇"@
    } else {
        "█"@
    }
}

/// The height of a bar in eighths of a line, where a bar of `ceiling` is `lines` high.
pub open spec fn bar_eighths(bar: u64, ceiling: u64, lines: u16) -> int {
    if ceiling == 0 {
        0
    } else {
        (bar * lines * 8) / ceiling as int
    }
}

/// A cell after a bar chart was drawn: `bars` from the left edge of `area`, one column each, in
/// `color`, a bar of `ceiling` being as high as `area`. A bar stands on the last line of `area`;
/// each line above shows what is left of it.
pub open spec fn bar_cell(
    area: Area,
    bars: Seq<u64>,
    ceiling: u64,
    color: Color,
    x: int,
    y: int,
    cell: Look,
) -> Look {
    if area.corner(bars.len(), area.height as nat).covers(x, y) {
        let lines_below = area.y + area.height - 1 - y;
        let eighths = bar_eighths(bars[x - area.x], ceiling, area.height) - 8 * lines_below;
        cell.inked(block_symbol(eighths), Ink::Fg(color))
    } else {
        cell
    }
}

/// The screen after a bar chart was drawn on it.
pub open spec fn sparkline_drawn(
    grid: Grid,
    area: Area,
    bars: Seq<u64>,
    ceiling: u64,
    color: Color,
) -> Grid {
    grid.painted(
        |x: int, y: int, cell: Look| bar_cell(area, bars, ceiling, color, x, y, cell),
    )
}

/// A cell after plain text was written into `area`: a character in each column of its first line,
/// from its left edge to its right one.
pub open spec fn text_cell(area: Area, pieces: Seq<Piece>, x: int, y: int, cell: Look) -> Look {
    if area.corner(columns(pieces), 1).covers(x, y) {
        let (c, ink) = glyphs(pieces)[x - area.x];
        cell.inked(seq![c], ink)
    } else {
        cell
    }
}

/// The screen after plain text was written on it.
pub open spec fn line_drawn(grid: Grid, area: Area, pieces: Seq<Piece>) -> Grid {
    grid.painted(|x: int, y: int, cell: Look| text_cell(area, pieces, x, y, cell))
}

/// A painted screen shows at each position what `paint` made of the cell there.
pub proof fn painted_shows_what_was_painted(
    grid: Grid,
    paint: spec_fn(int, int, Look) -> Look,
    x: int,
    y: int,
)
    requires
        grid.wf(),
        grid.area.covers(x, y),
    ensures
        grid.painted(paint).at(x, y) == paint(x, y, grid.at(x, y)),
{
    let width = grid.area.width as int;
    let height = grid.area.height as int;
    let (column, line) = (x - grid.area.x, y - grid.area.y);
    let k = line * width + column;
    assert(0 <= k < width * height) by (nonlinear_arith)
        requires
            0 <= column < width,
            0 <= line < height,
            k == line * width + column,
    ;
    lemma_fundamental_div_mod_converse(k, width, line, column);
}

/// A screen that is painted on inside `area` alone is a screen of the same size, and differs
/// nowhere else.
pub proof fn painting_stays_inside(
    grid: Grid,
    paint: spec_fn(int, int, Look) -> Look,
    area: Area,
)
    requires
        grid.wf(),
        forall|x: int, y: int, cell: Look|
            !area.covers(x, y) ==> #[trigger] paint(x, y, cell) == cell,
    ensures
        grid.painted(paint).wf(),
        grid.painted(paint).differs_only_in(grid, area),
{
    let painted = grid.painted(paint);
    assert forall|x: int, y: int| grid.area.covers(x, y) && !area.covers(x, y) implies
        #[trigger] painted.at(x, y) == grid.at(x, y) by {
        painted_shows_what_was_painted(grid, paint, x, y);
    }
}

/// A sparkline is drawn inside its area.
pub proof fn sparkline_stays_inside(
    grid: Grid,
    area: Area,
    bars: Seq<u64>,
    ceiling: u64,
    color: Color,
)
    requires
        grid.wf(),
    ensures
        sparkline_drawn(grid, area, bars, ceiling, color).wf(),
        sparkline_drawn(grid, area, bars, ceiling, color).differs_only_in(grid, area),
{
    let paint = |x: int, y: int, cell: Look| bar_cell(area, bars, ceiling, color, x, y, cell);
    painting_stays_inside(grid, paint, area);
}

/// A line of text is written inside its area.
pub proof fn line_stays_inside(grid: Grid, area: Area, pieces: Seq<Piece>)
    requires
        grid.wf(),
    ensures
        line_drawn(grid, area, pieces).wf(),
        line_drawn(grid, area, pieces).differs_only_in(grid, area),
{
    let paint = |x: int, y: int, cell: Look| text_cell(area, pieces, x, y, cell);
    painting_stays_inside(grid, paint, area);
}

/// The two stacked parts of `area`, as far as its lines can be addressed: the lower one is
/// `length` lines high, as far as the upper one keeps `min_top` lines; the upper one has the
/// rest.
pub open spec fn stacked(area: Area, min_top: u16, length: u16) -> (Area, Area) {
    let height: int = if area.y + area.height > u16::MAX {
        u16::MAX - area.y
    } else {
        area.height as int
    };
    let kept: int = if height < min_top { height } else { min_top as int };
    let rest: int = height - length;
    let top: int = if rest < kept { kept } else { rest };
    (
        Area { height: top as u16, ..area },
        Area { y: (area.y + top) as u16, height: (height - top) as u16, ..area },
    )
}

/// `Span::raw`: the text, unstyled.
#[verifier::external_body]
pub(crate) fn raw_span(text: String) -> (span: Span<'static>)
    ensures
        piece(span) == Piece::Inked(text@, Ink::Plain),
{
    Span::raw(text)
}

/// `Span::styled` with a foreground colour.
#[verifier::external_body]
pub(crate) fn fg_span(text: String, color: Color) -> (span: Span<'static>)
    ensures
        piece(span) == Piece::Inked(text@, Ink::Fg(color)),
{
    Span::styled(text, Style::default().fg(color))
}

/// `Span::styled` with a foreground colour and bold.
#[verifier::external_body]
pub(crate) fn bold_span(text: String, color: Color) -> (span: Span<'static>)
    ensures
        piece(span) == Piece::Inked(text@, Ink::BoldFg(color)),
{
    Span::styled(text, Style::default().fg(color).bold())
}

/// `Line::from` of spans: they and nothing else, with no style or alignment of the line's own.
#[verifier::external_body]
pub(crate) fn line_from(spans: Vec<Span<'static>>) -> (line: Line<'static>)
    ensures
        row(line) == Row::Bare(spans@.map_values(|span: Span<'static>| piece(span))),
{
    Line::from(spans)
}

/// `UnicodeWidthStr::width`: the columns that the text takes. Plain text takes one for each of
/// its characters: printable ASCII is one column wide, and so are the characters whose width is
/// ambiguous, the middle dot and the vertical rule among them.
#[verifier::external_body]
pub(crate) fn text_width(text: &str) -> (width: usize)
    requires
        plain_text(text@),
    ensures
        width == text@.len(),
{
    text.width()
}

/// `Layout::split`, top to bottom, into `Constraint::Min` over `Constraint::Length`. A minimum
/// has precedence over a length, a length over the growth of what only has a minimum; the two
/// parts fill the area, whose lower edge is the last line that can be addressed, at most. Sizes
/// above `i16::MAX` are not read as such by the minimum.
#[verifier::external_body]
pub(crate) fn stack(area: Area, min_top: u16, length: u16) -> (parts: (Area, Area))
    requires
        min_top <= i16::MAX,
    ensures
        parts == stacked(area, min_top, length),
{
    let whole = Rect { x: area.x, y: area.y, width: area.width, height: area.height };
    let parts = Layout::default()
        .direction(Direction::Vertical)
        .constraints([Constraint::Min(min_top), Constraint::Length(length)])
        .split(whole);
    let (a, b) = (parts[0], parts[1]);
    (
        Area { x: a.x, y: a.y, width: a.width, height: a.height },
        Area { x: b.x, y: b.y, width: b.width, height: b.height },
    )
}

/// The rectangle and the number of cells of the buffer that `Frame::buffer_mut` gives.
#[verifier::external_body]
pub(crate) fn frame_extent(frame: &mut Frame<'_>) -> (extent: (Area, usize))
    ensures
        extent.0 == frame_grid(*old(frame)).area,
        extent.1 == frame_grid(*old(frame)).cells.len(),
        frame_grid(*final(frame)) == frame_grid(*old(frame)),
{
    let buffer = frame.buffer_mut();
    let area = buffer.area;
    (Area { x: area.x, y: area.y, width: area.width, height: area.height }, buffer.content.len())
}

/// `Frame::render_widget` of a `Sparkline` that runs from left to right, with the nine levels of
/// blocks that it has by default. It sets the symbol and the foreground of as many columns of
/// `area`, from the left, as there are bars, and nothing else. A cell of these outside the frame
/// makes it panic, and so does a bar whose height in eighths of a line overflows.
#[verifier::external_body]
pub(crate) fn draw_sparkline(
    frame: &mut Frame<'_>,
    area: Area,
    bars: Vec<u64>,
    ceiling: u64,
    color: Color,
)
    requires
        frame_grid(*old(frame)).wf(),
        area.corner(bars@.len(), area.height as nat).within(frame_grid(*old(frame)).area),
        forall|i: int| 0 <= i < bars@.len() ==> #[trigger] bars@[i] * area.height * 8 <= u64::MAX,
    ensures
        frame_grid(*final(frame)) == sparkline_drawn(
            frame_grid(*old(frame)),
            area,
            bars@,
            ceiling,
            color,
        ),
{
    let sparkline = Sparkline::default()
        .data(bars)
        .max(ceiling)
        .direction(RenderDirection::LeftToRight)
        .style(Style::default().fg(color));
    frame.render_widget(
        sparkline,
        Rect { x: area.x, y: area.y, width: area.width, height: area.height },
    );
}

/// `Frame::render_widget` of a `Paragraph` of one line of plain text. It sets the symbols, and of
/// the looks what the spans have of their own, on the first line of `area`, from the left, and
/// nothing else; it cuts the text off at the right edge. A cell of these outside the frame makes
/// it panic. It adds the columns up in sixteen bits.
#[verifier::external_body]
pub(crate) fn draw_line(frame: &mut Frame<'_>, area: Area, line: Line<'static>)
    requires
        frame_grid(*old(frame)).wf(),
        row(line) matches Row::Bare(pieces) && plain_pieces(pieces) && columns(pieces) <= u16::MAX
            && area.corner(columns(pieces), 1).within(frame_grid(*old(frame)).area),
    ensures
        row(line) matches Row::Bare(pieces) ==> frame_grid(*final(frame)) == line_drawn(
            frame_grid(*old(frame)),
            area,
            pieces,
        ),
{
    let paragraph = Paragraph::new(line);
    frame.render_widget(
        paragraph,
        Rect { x: area.x, y: area.y, width: area.width, height: area.height },
    );
}

/// The cells of a rectangle are those from its first column and line on, as many as it is wide
/// and high; an empty one has none.
pub proof fn area_covers_its_cells(area: Area, x: int, y: int)
    ensures
        area.covers(x, y) <==> (area.x <= x && x < area.x + area.width && area.y <= y && y < area.y
            + area.height),
        area.is_empty() <==> (area.width == 0 || area.height == 0),
{
}

/// A corner of a rectangle has those of its cells that lie in its first columns and lines.
pub proof fn corner_covers_the_first_cells(area: Area, columns: nat, lines: nat, x: int, y: int)
    ensures
        area.corner(columns, lines).covers(x, y) <==> (area.covers(x, y) && x < area.x + columns
            && y < area.y + lines),
{
}

/// A rectangle lies within another where the other has all of its cells.
pub proof fn within_means_every_cell(area: Area, outer: Area)
    ensures
        area.within(outer) <==> (forall|x: int, y: int|
            area.covers(x, y) ==> #[trigger] outer.covers(x, y)),
{
    if !area.is_empty() {
        let (right, bottom) = (area.x + area.width - 1, area.y + area.height - 1);
        if forall|x: int, y: int| area.covers(x, y) ==> #[trigger] outer.covers(x, y) {
            assert(area.covers(area.x as int, area.y as int));
            assert(outer.covers(area.x as int, area.y as int));
            assert(area.covers(right, bottom));
            assert(outer.covers(right, bottom));
        }
    }
}

/// A screen is well-formed where it has a cell for each position, and each can be addressed.
pub proof fn screen_has_a_cell_for_each_position(grid: Grid)
    ensures
        grid.wf() <==> (grid.area.x + grid.area.width <= 65535 && grid.area.y + grid.area.height
            <= 65535 && grid.cells.len() == grid.area.width * grid.area.height),
{
}

/// The cells of a screen stand line by line.
pub proof fn cells_stand_line_by_line(grid: Grid, x: int, y: int)
    ensures
        grid.at(x, y) == grid.cells[(y - grid.area.y) * grid.area.width + (x - grid.area.x)],
{
}

/// Drawing on a cell sets its symbol, its foreground where there is a colour, and the bold bit
/// where the text is bold; it keeps everything else.
pub proof fn inked_cell_keeps_the_rest(cell: Look, symbol: Seq<char>, color: Color)
    ensures
        cell.inked(symbol, Ink::Plain) == (Look {
            symbol,
            fg: cell.fg,
            bg: cell.bg,
            modifiers: cell.modifiers,
            skip: cell.skip,
        }),
        cell.inked(symbol, Ink::Fg(color)) == (Look {
            symbol,
            fg: color,
            bg: cell.bg,
            modifiers: cell.modifiers,
            skip: cell.skip,
        }),
        cell.inked(symbol, Ink::BoldFg(color)) == (Look {
            symbol,
            fg: color,
            bg: cell.bg,
            modifiers: cell.modifiers | 1,
            skip: cell.skip,
        }),
{
}

/// The characters of a span follow those of the spans before it, in order, each in its look.
pub proof fn glyphs_follow_each_other(pieces: Seq<Piece>, text: Seq<char>, ink: Ink)
    ensures
        glyphs(Seq::empty()) == Seq::<(char, Ink)>::empty(),
        glyphs(pieces.push(Piece::Inked(text, ink))).len() == glyphs(pieces).len() + text.len(),
        forall|i: int|
            0 <= i < glyphs(pieces).len() ==> #[trigger] glyphs(
                pieces.push(Piece::Inked(text, ink)),
            )[i] == glyphs(pieces)[i],
        forall|i: int|
            0 <= i < text.len() ==> glyphs(pieces.push(Piece::Inked(text, ink)))[glyphs(pieces).len()
                + i] == (#[trigger] text[i], ink),
        columns(pieces) == glyphs(pieces).len(),
{
    assert(pieces.push(Piece::Inked(text, ink)).drop_last() =~= pieces);
}

/// The blocks are full from eight eighths on, blank from none down, and the seven between them
/// in the order of their code points.
pub proof fn blocks_grow_by_eighths(eighths: int)
    ensures
        block_symbol(eighths).len() == 1,
        eighths <= 0 ==> block_symbol(eighths)[0] == ' ',
        1 <= eighths <= 8 ==> block_symbol(eighths)[0] as int == 0x2580 + eighths,
        eighths >= 8 ==> block_symbol(eighths)[0] as int == 0x2588,
{
    reveal_strlit(" ");
    reveal_strlit("▁");
    reveal_strlit("▂");
    reveal_strlit("▃");
    reveal_strlit("▄");
    reveal_strlit("▅");
    reveal_strlit("▆");
    reveal_strlit("▇");
    reveal_strlit("█");
}

/// A screen that differs only in an area has the size it had, and shows what it showed at every
/// position outside the area.
pub proof fn differing_only_there_is_the_same_elsewhere(
    grid: Grid,
    before: Grid,
    area: Area,
    x: int,
    y: int,
)
    requires
        grid.differs_only_in(before, area),
    ensures
        grid.area == before.area,
        grid.cells.len() == before.cells.len(),
        before.area.covers(x, y) && !(area.x <= x < area.x + area.width && area.y <= y < area.y
            + area.height) ==> grid.at(x, y) == before.at(x, y),
{
}

/// One-column characters are printable ASCII, U+00B7 and U+2502.
pub proof fn one_column_characters(c: char)
    ensures
        one_column(c) <==> (0x20 <= c as int <= 0x7e || c as int == 0xb7 || c as int == 0x2502),
{
}

} // verus!
