use diagnostics::metrics::{AgentCounts, MemorySample, MetricsSnapshot, PressureBand};
use diagnostics::strip::{
    band_color, fitting_detail, format_bytes, readout_line, recent_samples, render, render_if_fits,
    ReadoutDetail, ReadoutWidths, Theme,
};
use diagnostics::terminal::Area;
use diagnostics::text::push_decimal;
use ratatui::backend::TestBackend;
use ratatui::buffer::Buffer;
use ratatui::layout::{Constraint, Direction, Layout, Rect};
use ratatui::style::{Color, Modifier, Style};
use ratatui::text::Line;
use ratatui::Terminal;
use std::collections::VecDeque;

fn theme() -> Theme {
    Theme {
        running: Color::Green,
        waiting: Color::Yellow,
        error: Color::Red,
        dimmed: Color::DarkGray,
        text: Color::White,
    }
}

fn snapshot() -> MetricsSnapshot {
    MetricsSnapshot {
        memory: MemorySample {
            total_bytes: 32 << 30,
            used_bytes: 8 << 30,
            used_percent: 25,
            band: PressureBand::Warn,
        },
        counts: AgentCounts { agents: 3, procs: 24 },
    }
}

fn content(line: &Line) -> String {
    line.spans.iter().map(|span| span.content.as_ref()).collect()
}

/// Draws the strip on a screen filled with dots.
fn drawn(screen: (u16, u16), area: Area, history: &[u64], snapshot: &MetricsSnapshot) -> (bool, Buffer) {
    let mut terminal = Terminal::new(TestBackend::new(screen.0, screen.1)).unwrap();
    let history: VecDeque<u64> = history.iter().copied().collect();
    let mut fits = false;
    terminal
        .draw(|frame| {
            for cell in frame.buffer_mut().content.iter_mut() {
                cell.set_symbol(".");
            }
            fits = render_if_fits(frame, area, &theme(), &history, snapshot);
        })
        .unwrap();
    (fits, terminal.backend().buffer().clone())
}

fn lines(buffer: &Buffer) -> Vec<String> {
    let width = buffer.area.width as usize;
    buffer
        .content
        .chunks(width)
        .map(|row| row.iter().map(|cell| cell.symbol()).collect())
        .collect()
}

#[test]
fn format_bytes_table() {
    let gib = 1u64 << 30;
    let cases = [
        (0u64, "0B"),
        (512, "512B"),
        (1024, "1K"),
        (536_870_912, "512M"), // 512 MiB
        (32 * gib, "32G"),     // whole GiB drops the .0
        (22 * gib + 7 * gib / 10, "22.7G"),
        (9 * gib + 9 * gib / 10, "9.9G"),
    ];
    for (bytes, expected) in cases {
        assert_eq!(format_bytes(bytes), expected, "bytes {bytes}");
    }
}

#[test]
fn format_bytes_at_the_edges_of_the_units() {
    let cases = [
        (1, "1B"),
        (1023, "1023B"),
        (1535, "1K"),
        (1536, "2K"), // halfway goes up
        ((1 << 20) - 1, "1024K"),
        (1 << 20, "1M"),
        ((1 << 30) - 1, "1024M"),
        (1 << 30, "1G"),
        ((1 << 30) + (1 << 30) / 20 - 1, "1G"),
        ((1 << 30) + (1 << 30) / 20 + 1, "1.1G"),
        (u64::MAX, "17179869184G"),
    ];
    for (bytes, expected) in cases {
        assert_eq!(format_bytes(bytes), expected, "bytes {bytes}");
    }
}

#[test]
fn whole_units_have_no_fraction() {
    for k in 1..1024u64 {
        assert_eq!(format_bytes(k), format!("{k}B"));
        assert_eq!(format_bytes(k << 10), format!("{k}K"));
        assert_eq!(format_bytes(k << 20), format!("{k}M"));
        assert_eq!(format_bytes(k << 30), format!("{k}G"));
    }
}

/// Ten times the bytes that a compact byte count stands for.
fn tenfold_bytes(text: &str) -> u128 {
    let (number, unit) = text.split_at(text.len() - 1);
    let unit: u128 = match unit {
        "G" => 1 << 30,
        "M" => 1 << 20,
        "K" => 1 << 10,
        _ => 1,
    };
    let tenths: u128 = match number.split_once('.') {
        Some((whole, tenth)) => {
            10 * whole.parse::<u128>().unwrap() + tenth.parse::<u128>().unwrap()
        }
        None => 10 * number.parse::<u128>().unwrap(),
    };
    tenths * unit
}

#[test]
fn shown_size_never_falls() {
    assert_eq!(tenfold_bytes("22.7G"), 227 << 30);
    assert_eq!(tenfold_bytes("512M"), 5120 << 20);
    let mut last = 0;
    let around = |n: u64| n - 2000..n + 2000;
    for bytes in (0..5000)
        .chain(around(1 << 20))
        .chain((1 << 20..1 << 30).step_by(99_991))
        .chain(around(1 << 30))
        .chain((1 << 30..1 << 35).step_by(9_999_991))
        .chain([u64::MAX - 1, u64::MAX])
    {
        let shown = tenfold_bytes(&format_bytes(bytes));
        assert!(last <= shown, "bytes {bytes}");
        last = shown;
    }
}

#[test]
fn decimal_notation() {
    for n in [0, 9, 10, 99, 100, 1207, u64::MAX] {
        let mut text = "n=".to_string();
        push_decimal(&mut text, n);
        assert_eq!(text, format!("n={n}"));
    }
}

#[test]
fn colour_of_each_band() {
    assert_eq!(band_color(&theme(), PressureBand::Normal), Color::Green);
    assert_eq!(band_color(&theme(), PressureBand::Warn), Color::Yellow);
    assert_eq!(band_color(&theme(), PressureBand::Critical), Color::Red);
}

#[test]
fn readout_sheds_detail_as_width_shrinks() {
    let snapshot = snapshot();
    let at = |avail: usize| {
        readout_line(&theme(), Color::Yellow, &snapshot.memory, &snapshot, avail)
    };
    let full = " 25%  8G/32G  │  3 agents · 24 procs";
    let counts = " 25%  3 agents · 24 procs";
    assert_eq!(content(&at(full.chars().count())), full);
    assert_eq!(content(&at(1000)), full);
    assert_eq!(content(&at(full.chars().count() - 1)), counts);
    assert_eq!(content(&at(counts.chars().count())), counts);
    assert_eq!(content(&at(counts.chars().count() - 1)), " 25%");
    assert_eq!(content(&at(0)), " 25%");
}

#[test]
fn readout_styles() {
    let snapshot = snapshot();
    let line = readout_line(&theme(), Color::Yellow, &snapshot.memory, &snapshot, 80);
    let styles: Vec<Style> = line.spans.iter().map(|span| span.style).collect();
    assert_eq!(
        styles,
        vec![
            Style::default(),
            Style::default().fg(Color::Yellow).add_modifier(Modifier::BOLD),
            Style::default(),
            Style::default().fg(Color::White),
            Style::default().fg(Color::DarkGray),
            Style::default().fg(Color::DarkGray),
        ]
    );
    assert_eq!(line.style, Style::default());
    assert_eq!(line.alignment, None);
}

#[test]
fn readout_before_the_first_sample_shows_only_counts() {
    let mut snapshot = snapshot();
    snapshot.memory.total_bytes = 0;
    for avail in [0, 10, 100] {
        let line = readout_line(&theme(), Color::Yellow, &snapshot.memory, &snapshot, avail);
        assert_eq!(content(&line), " 3 agents · 24 procs");
        assert_eq!(line.spans[1].style, Style::default().fg(Color::DarkGray));
    }
}

#[test]
fn detail_by_the_columns() {
    let widths = ReadoutWidths { percent: 3, gap: 2, detail: 6, separator: 5, counts: 20 };
    assert_eq!(fitting_detail(&widths, 37), ReadoutDetail::Full);
    assert_eq!(fitting_detail(&widths, 36), ReadoutDetail::Counts);
    assert_eq!(fitting_detail(&widths, 26), ReadoutDetail::Counts);
    assert_eq!(fitting_detail(&widths, 25), ReadoutDetail::Percent);
    let huge = ReadoutWidths { percent: usize::MAX, gap: usize::MAX, ..widths };
    assert_eq!(fitting_detail(&huge, usize::MAX), ReadoutDetail::Percent);
}

#[test]
fn recent_samples_are_the_newest() {
    let history: VecDeque<u64> = (0..10).collect();
    assert_eq!(recent_samples(&history, 3), vec![7, 8, 9]);
    assert_eq!(recent_samples(&history, 10), (0..10).collect::<Vec<u64>>());
    assert_eq!(recent_samples(&history, 11), (0..10).collect::<Vec<u64>>());
    assert_eq!(recent_samples(&history, 0), Vec::<u64>::new());
}

#[test]
fn strip_stacks_sparkline_over_readout() {
    let area = Area { x: 1, y: 1, width: 27, height: 3 };
    let (fits, buffer) = drawn((30, 5), area, &[0, 250, 500, 1000, 2000], &snapshot());
    assert!(fits);
    assert_eq!(
        lines(&buffer),
        vec![
            "..............................",
            ".   ██........................",
            ". ▄███........................",
            ". 25%  3 agents · 24 procs....",
            "..............................",
        ]
    );
    // The sparkline and the percent have the colour of the band.
    assert_eq!(buffer[(2, 2)].fg, Color::Yellow);
    assert_eq!(buffer[(2, 3)].fg, Color::Yellow);
    assert!(buffer[(2, 3)].modifier.contains(Modifier::BOLD));
    assert_eq!(buffer[(8, 3)].fg, Color::DarkGray);
}

#[test]
fn strip_shows_the_newest_samples() {
    let history: Vec<u64> = (0..100).map(|i| if i < 95 { 1000 } else { 0 }).collect();
    let area = Area { x: 0, y: 0, width: 10, height: 2 };
    let (fits, buffer) = drawn((10, 2), area, &history, &snapshot());
    assert!(fits);
    assert_eq!(lines(&buffer)[0], "█████     ");
}

#[test]
fn scale_is_fixed() {
    // A peak of half the scale is half as high as the plot, whatever the other samples are.
    let area = Area { x: 0, y: 0, width: 3, height: 2 };
    let (_, buffer) = drawn((3, 2), area, &[500, 500, 500], &snapshot());
    assert_eq!(lines(&buffer)[0], "▄▄▄");
}

/// A screen of cells that look like nothing the strip draws.
fn strange_screen(terminal: &mut Terminal<TestBackend>) -> Buffer {
    let mut frame = terminal.get_frame();
    for cell in frame.buffer_mut().content.iter_mut() {
        cell.set_symbol("?").set_fg(Color::Magenta).set_bg(Color::Blue).set_skip(true);
        cell.modifier = Modifier::ITALIC | Modifier::REVERSED;
    }
    frame.buffer_mut().clone()
}

#[test]
fn cells_of_the_sparkline() {
    let blocks = [" ", "▁", "▂", "▃", "▄", "▅", "▆", "▇", "█"];
    let history: VecDeque<u64> = (0..60).map(|i| i * 37).chain([1000, 999, 1]).collect();
    for height in 1..6u16 {
        let mut terminal = Terminal::new(TestBackend::new(70, 8)).unwrap();
        let before = strange_screen(&mut terminal);
        let area = Area { x: 2, y: 1, width: 65, height: height + 1 };
        let mut frame = terminal.get_frame();
        render(&mut frame, area, &theme(), &history, &snapshot());
        let after = frame.buffer_mut();
        for y in 0..8u16 {
            for x in 0..70u16 {
                let column = (x as usize).wrapping_sub(2);
                let mut expected = before[(x, y)].clone();
                if column < history.len() && (1..1 + height).contains(&y) {
                    let eighths = history[column] * height as u64 * 8 / 1000;
                    let left = eighths.saturating_sub(8 * (height - y) as u64);
                    expected.set_symbol(blocks[left.min(8) as usize]).set_fg(Color::Yellow);
                }
                if y != 1 + height {
                    assert_eq!(after[(x, y)], expected, "{x} {y} {height}");
                }
            }
        }
    }
}

#[test]
fn cells_of_the_readout() {
    let text = " 25%  8G/32G  │  3 agents · 24 procs";
    let mut terminal = Terminal::new(TestBackend::new(45, 4)).unwrap();
    let before = strange_screen(&mut terminal);
    let area = Area { x: 3, y: 1, width: 40, height: 2 };
    let mut frame = terminal.get_frame();
    render(&mut frame, area, &theme(), &VecDeque::new(), &snapshot());
    let after = frame.buffer_mut();
    for y in 0..4u16 {
        for x in 0..45u16 {
            let mut expected = before[(x, y)].clone();
            let column = (x as usize).wrapping_sub(3);
            if let (2, Some(c)) = (y, text.chars().nth(column)) {
                expected.set_char(c);
                if (1..4).contains(&column) {
                    expected.set_fg(Color::Yellow).modifier |= Modifier::BOLD;
                } else if (6..12).contains(&column) {
                    expected.set_fg(Color::White);
                } else if column >= 12 {
                    expected.set_fg(Color::DarkGray);
                }
            }
            assert_eq!(after[(x, y)], expected, "{x} {y}");
        }
    }
}

#[test]
fn readout_is_cut_off_at_the_edge() {
    let area = Area { x: 0, y: 0, width: 3, height: 2 };
    let (fits, buffer) = drawn((6, 2), area, &[], &snapshot());
    assert!(fits);
    assert_eq!(lines(&buffer), vec!["......", " 25..."]);
}

#[test]
fn column_depends_on_its_own_sample() {
    let area = Area { x: 0, y: 0, width: 5, height: 4 };
    let (_, one) = drawn((5, 4), area, &[0, 0, 640, 0, 0], &snapshot());
    let (_, other) = drawn((5, 4), area, &[1000, 7, 640, 999, 333], &snapshot());
    for y in 0..4 {
        assert_eq!(one[(2, y)], other[(2, y)]);
    }
    assert_ne!(one[(0, 0)], other[(0, 0)]);
}

#[test]
fn empty_area_draws_nothing() {
    for (width, height) in [(0, 3), (3, 0), (0, 0)] {
        let area = Area { x: 1, y: 1, width, height };
        let (fits, buffer) = drawn((5, 5), area, &[1000; 5], &snapshot());
        assert!(fits);
        assert!(buffer.content.iter().all(|cell| cell.symbol() == "."));
        // An empty area draws nothing even where it lies outside the screen.
        let outside = Area { x: 100, y: 100, width, height };
        assert!(drawn((5, 5), outside, &[1000; 5], &snapshot()).0);
    }
}

#[test]
fn single_line_is_all_sparkline() {
    let area = Area { x: 0, y: 1, width: 4, height: 1 };
    let (fits, buffer) = drawn((4, 3), area, &[1000, 500], &snapshot());
    assert!(fits);
    assert_eq!(lines(&buffer), vec!["....", "█▄..", "...."]);
}

#[test]
fn strip_that_leaves_the_screen_is_not_drawn() {
    for area in [
        Area { x: 1, y: 0, width: 5, height: 2 },
        Area { x: 0, y: 4, width: 5, height: 2 },
        Area { x: u16::MAX, y: 0, width: 5, height: 2 },
        Area { x: 0, y: 0, width: 5, height: u16::MAX },
    ] {
        let (fits, buffer) = drawn((5, 5), area, &[1000; 5], &snapshot());
        assert!(!fits);
        assert!(buffer.content.iter().all(|cell| cell.symbol() == "."));
    }
}

#[test]
fn only_the_cells_that_are_drawn_on_need_a_screen() {
    // Two samples and a readout of four columns: both end before the right edge of the screen.
    let wide = Area { x: 2, y: 1, width: 20, height: 2 };
    let mut quiet = snapshot();
    quiet.counts = AgentCounts { agents: 1234567, procs: 1234567 };
    let (fits, buffer) = drawn((8, 4), wide, &[1000, 500], &quiet);
    assert!(fits);
    assert_eq!(lines(&buffer), vec!["........", "..█▄....", ".. 25%..", "........"]);
    // One column less, and the percent sign has no cell.
    assert!(!drawn((5, 4), wide, &[1000], &quiet).0);
    // A readout that leaves the screen, of which no part has a line: a strip of one line.
    let line = Area { x: 0, y: 3, width: 100, height: 1 };
    assert!(drawn((3, 4), line, &[1000, 500, 0], &snapshot()).0);
    assert!(!drawn((3, 4), line, &[1000, 500, 0, 0], &snapshot()).0);
    // No samples: only the readout needs cells, on the last line of the strip.
    let above = Area { x: 0, y: 0, width: 100, height: 4 };
    assert!(drawn((40, 4), above, &[], &snapshot()).0);
    assert!(!drawn((35, 4), above, &[], &snapshot()).0);
    assert!(!drawn((40, 3), above, &[], &snapshot()).0);
    // Below the last line that can be addressed there is nothing to draw.
    let below = Area { x: 0, y: u16::MAX, width: 5, height: 5 };
    assert!(drawn((3, 4), below, &[1000], &snapshot()).0);
}

#[test]
fn every_strip_that_fits_is_drawn() {
    let mut terminal = Terminal::new(TestBackend::new(6, 4)).unwrap();
    let mut frame = terminal.get_frame();
    for samples in 0..9 {
        let history: VecDeque<u64> = vec![1000; samples].into();
        for place in 0..8 * 6 * 9 * 6 {
            let area = Area {
                x: place % 8,
                y: place / 8 % 6,
                width: place / 48 % 9,
                height: place / 432,
            };
            let shown = (area.width as usize).min(samples) as u16;
            let readout = if area.height > 1 { area.width.min(4) } else { 0 };
            let top = if area.height > 1 { area.height - 1 } else { area.height };
            let bars_lie_inside =
                shown == 0 || top == 0 || (area.x + shown <= 6 && area.y + top <= 4);
            let readout_lies_inside =
                readout == 0 || (area.x + readout <= 6 && area.y + area.height <= 4);
            let fits = render_if_fits(&mut frame, area, &theme(), &history, &snapshot());
            assert_eq!(fits, bars_lie_inside && readout_lies_inside, "{area:?} {samples}");
        }
    }
}

#[test]
fn nothing_outside_the_area_changes() {
    let area = Area { x: 3, y: 1, width: 9, height: 2 };
    let (fits, buffer) = drawn((14, 4), area, &[1000; 30], &snapshot());
    assert!(fits);
    for y in 0..4 {
        for x in 0..14 {
            let inside = (3..12).contains(&x) && (1..3).contains(&y);
            assert!(inside || buffer[(x, y)].symbol() == ".");
            assert!(inside || buffer[(x, y)].fg == Color::Reset);
        }
    }
}

#[test]
fn bar_beyond_the_integer_range_is_not_drawn() {
    let area = Area { x: 0, y: 0, width: 3, height: 3 };
    // Two lines of sparkline: the bar is counted in sixteenths of it.
    let most = u64::MAX / 16;
    assert!(drawn((5, 5), area, &[most], &snapshot()).0);
    assert!(!drawn((5, 5), area, &[most + 1], &snapshot()).0);
    // A sample that is no longer shown does not count.
    assert!(drawn((5, 5), area, &[most + 1, 0, 0, 0], &snapshot()).0);
}

#[test]
fn screen_without_its_cells_is_not_drawn_on() {
    let mut terminal = Terminal::new(TestBackend::new(5, 5)).unwrap();
    let mut frame = terminal.get_frame();
    let kept = frame.buffer_mut().content.pop();
    let area = Area { x: 0, y: 0, width: 5, height: 5 };
    assert!(!render_if_fits(&mut frame, area, &theme(), &VecDeque::new(), &snapshot()));
    frame.buffer_mut().content.push(kept.unwrap());
    assert!(render_if_fits(&mut frame, area, &theme(), &VecDeque::new(), &snapshot()));
}

#[test]
fn render_draws_what_render_if_fits_draws() {
    let area = Area { x: 0, y: 0, width: 40, height: 4 };
    let history: VecDeque<u64> = (0..60).map(|i| i * 16).collect();
    let mut terminal = Terminal::new(TestBackend::new(40, 4)).unwrap();
    terminal.draw(|frame| render(frame, area, &theme(), &history, &snapshot())).unwrap();
    let once = terminal.backend().buffer().clone();
    terminal
        .draw(|frame| assert!(render_if_fits(frame, area, &theme(), &history, &snapshot())))
        .unwrap();
    assert_eq!(once, terminal.backend().buffer().clone());
    assert_eq!(lines(&once)[3], " 25%  8G/32G  │  3 agents · 24 procs    ");
}

#[test]
fn rows_at_many_heights() {
    for height in (0..1000).chain((1000..u16::MAX).step_by(97)).chain([u16::MAX]) {
        let parts = Layout::default()
            .direction(Direction::Vertical)
            .constraints([Constraint::Min(1), Constraint::Length(1)])
            .split(Rect { x: 3, y: 0, width: 7, height });
        let top = if height < 2 { height } else { height - 1 };
        assert_eq!(parts[0], Rect { x: 3, y: 0, width: 7, height: top });
        assert_eq!(parts[1], Rect { x: 3, y: top, width: 7, height: height - top });
    }
}

#[test]
fn rows_with_other_lengths() {
    for (y, height, min, length) in [
        (0, 10, 3, 4),
        (5, 10, 3, 4),
        (5, 7, 3, 4),
        (5, 6, 3, 4),
        (5, 3, 3, 4),
        (5, 2, 3, 4),
        (60000, 5535, 1, 1),
        (7, 1, 1, 1),
        (7, 0, 2, 2),
        (1, 40, 0, 9),
        (1, 40, 9, 0),
        (1, 4, 0, 9),
        (0, 65535, 32767, 5),
        (0, 100, 32767, 5),
        (0, 100, 5, 65535),
        (65000, 1000, 1, 1),
        (1, 65535, 1, 1),
        (65533, 10, 1, 1),
        (65534, 10, 1, 1),
        (65535, 10, 1, 1),
        (65530, 100, 3, 9),
    ] {
        let parts = Layout::default()
            .direction(Direction::Vertical)
            .constraints([Constraint::Min(min), Constraint::Length(length)])
            .split(Rect { x: 65535, y, width: 2, height });
        let height = height.min(u16::MAX - y);
        let top = min.min(height).max(height.saturating_sub(length));
        assert_eq!(parts[0], Rect { x: 65535, y, width: 2, height: top });
        assert_eq!(parts[1], Rect { x: 65535, y: y + top, width: 2, height: height - top });
    }
}
