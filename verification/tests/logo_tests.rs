use domain_probe::logo::color::{ansi, fg, CYAN, GREEN, PURPLE, TEAL};
use domain_probe::logo::frame::{colored_bar, pad_to, render_placements, visible_len, Placement};
use domain_probe::logo::logo::{
    ascii_lines, final_unfold_frame, front_shape, print, spin_frame, spin_frames, unfold_frames, FadedPalette,
    SpinShape, ROWS,
};
use domain_probe::logo::timeline::{
    frame_sleep_nanos, Signal, StepEnd, StepKind, Timeline, DEFAULT_CYCLE_NANOS, UNFOLD_FALLBACK_NANOS,
};

const RESET: &str = "\x1b[0m";

#[test]
fn fg_writes_truecolor_escape() {
    assert_eq!(fg(1, 22, 255), "\x1b[38;2;1;22;255m");
    assert_eq!(ansi((0, 0, 0)), "\x1b[38;2;0;0;0m");
}

#[test]
fn visible_len_skips_escapes() {
    assert_eq!(visible_len("\x1b[31mab\x1b[0m"), 2);
    assert_eq!(visible_len("plain"), 5);
    assert_eq!(visible_len(""), 0);
    assert_eq!(visible_len("\x1b[1;2"), 0);
}

#[test]
fn pad_to_adds_spaces_to_visible_width() {
    assert_eq!(pad_to("ab", 5), "ab   ");
    assert_eq!(pad_to("abcdef", 3), "abcdef");
    let colored = format!("{}x{}", fg(1, 2, 3), RESET);
    let padded = pad_to(&colored, 4);
    assert_eq!(visible_len(&padded), 4);
    assert_eq!(padded, format!("{}   ", colored));
}

#[test]
fn colored_bar_splits_width_evenly() {
    let bar = colored_bar(&[(1, 2, 3), (4, 5, 6)], 5);
    assert_eq!(bar, format!("{}━━━{}━━{}", fg(1, 2, 3), fg(4, 5, 6), RESET));
}

#[test]
fn colored_bar_spans_exactly_the_width() {
    for width in [0usize, 1, 4, 5, 17, 80] {
        let bar = colored_bar(&[PURPLE, CYAN, TEAL, GREEN, TEAL], width);
        assert_eq!(visible_len(&bar), width);
    }
}

#[test]
fn later_placement_covers_earlier_and_off_grid_is_dropped() {
    let ps = [
        Placement { row: 0, col: 2, glyph: 'x', color: (1, 1, 1) },
        Placement { row: 0, col: 2, glyph: 'y', color: (2, 2, 2) },
        Placement { row: 1, col: -1, glyph: 'z', color: (9, 9, 9) },
        Placement { row: 0, col: 0, glyph: 'a', color: (3, 3, 3) },
        Placement { row: 5, col: 0, glyph: 'w', color: (9, 9, 9) },
    ];
    let lines = render_placements(&ps, 2, 4);
    assert_eq!(lines.len(), 2);
    assert_eq!(lines[0], format!("{}a{} {}y{}", fg(3, 3, 3), RESET, fg(2, 2, 2), RESET));
    assert_eq!(lines[1], "");
}

#[test]
fn front_face_layout() {
    let frame = spin_frame(front_shape());
    assert_eq!(frame.lines[0], format!("   {}╱╲{}", ansi(CYAN), RESET));
    assert_eq!(frame.lines[1], format!("  {}╱  ╲{}", ansi(CYAN), RESET));
    let diamond = format!(" {}◇{}━━━━{}◇{}", ansi(PURPLE), ansi(TEAL), ansi(GREEN), RESET);
    let name = format!(" {}domain{}-probe{}", fg(133, 133, 173), fg(244, 244, 255), RESET);
    assert_eq!(frame.lines[2], format!("{}    {}", diamond, name));
    assert_eq!(frame.lines[3], format!("  {}╲  ╱{}", ansi(GREEN), RESET));
    assert_eq!(frame.lines[4], format!("   {}╲╱{}", ansi(GREEN), RESET));
}

#[test]
fn edge_on_frame_is_a_line_with_a_dot() {
    let shape = SpinShape {
        half_widths: [0, 0, 0, 0, 0],
        is_back: true,
        faded: FadedPalette { cyan: (1, 1, 1), purple: (2, 2, 2), teal: (3, 3, 3), green: (4, 4, 4) },
    };
    let frame = spin_frame(shape);
    assert_eq!(frame.lines[0], format!("    {}│{}", fg(3, 3, 3), RESET));
    assert_eq!(frame.lines[1], format!("    {}┃{}", fg(3, 3, 3), RESET));
    assert!(frame.lines[2].starts_with(&format!("    {}◆{}", fg(3, 3, 3), RESET)));
}

#[test]
fn collapsed_rows_show_points() {
    let shape = SpinShape {
        half_widths: [0, 1, 1, 1, 0],
        is_back: false,
        faded: FadedPalette { cyan: (1, 1, 1), purple: (2, 2, 2), teal: (3, 3, 3), green: (4, 4, 4) },
    };
    let frame = spin_frame(shape);
    assert_eq!(frame.lines[0], format!("    {}▴{}", fg(1, 1, 1), RESET));
    assert_eq!(frame.lines[1], format!("   {}╱╲{}", fg(1, 1, 1), RESET));
    assert!(frame.lines[2].starts_with(&format!("   {}◇{}◇{}", fg(2, 2, 2), fg(4, 4, 4), RESET)));
    assert_eq!(frame.lines[3], format!("   {}╲╱{}", fg(4, 4, 4), RESET));
    assert_eq!(frame.lines[4], format!("    {}▾{}", fg(4, 4, 4), RESET));
}

#[test]
fn print_chooses_truecolor_or_ascii() {
    let plain = print(false);
    assert_eq!(plain, vec!["  /\\", " /  \\", "<    > domain-probe", " \\  /", "  \\/"]);
    assert_eq!(plain, ascii_lines());
    let color = print(true);
    let front = spin_frame(front_shape());
    assert_eq!(color, front.lines.to_vec());
}

#[test]
fn spin_frames_lay_out_each_shape() {
    let frames = spin_frames(&[front_shape(), front_shape()]);
    assert_eq!(frames.len(), 2);
    assert_eq!(frames[1].lines, spin_frame(front_shape()).lines);
}

#[test]
fn unfold_frames_end_on_the_bar() {
    let samples = vec![vec![Placement { row: 2, col: 1, glyph: '━', color: (5, 5, 5) }], vec![]];
    let frames = unfold_frames(&samples, 10);
    assert_eq!(frames.len(), 3);
    assert_eq!(frames[0].lines[2], format!(" {}━{}", fg(5, 5, 5), RESET));
    assert_eq!(frames[1].lines.len(), ROWS);
    assert!(frames[1].lines.iter().all(|l| l.is_empty()));
    let last = &frames[2];
    assert_eq!(last.lines[2], colored_bar(&[PURPLE, CYAN, TEAL, GREEN, TEAL], 10));
    assert_eq!(visible_len(&last.lines[2]), 10);
    assert_eq!(final_unfold_frame(10).lines[0], "");
}

#[test]
fn timeline_builders_append_steps_in_order() {
    let signal = Signal::new();
    let t = Timeline::new(5).spin(1_000).hold(5).spin_until(signal.clone()).unfold(7).spin_with_cycle(3, 9);
    assert_eq!(t.rows(), 5);
    let steps = t.steps();
    assert_eq!(steps.len(), 5);
    assert!(matches!(steps[0].kind, StepKind::Spin { cycle } if cycle == DEFAULT_CYCLE_NANOS));
    assert!(matches!(steps[0].end, StepEnd::Timed(1_000)));
    assert!(matches!(steps[1].kind, StepKind::Hold));
    assert!(matches!(steps[2].end, StepEnd::Signal { max: None, .. }));
    assert!(matches!(steps[3].kind, StepKind::Unfold));
    assert_eq!(steps[3].budget_nanos(), 7);
    assert_eq!(steps[2].budget_nanos(), UNFOLD_FALLBACK_NANOS);
    assert!(matches!(steps[4].kind, StepKind::Spin { cycle: 9 }));
}

#[test]
fn step_ends_on_time_or_signal() {
    let timed = StepEnd::Timed(10);
    assert!(!timed.is_done(9));
    assert!(timed.is_done(10));
    let signal = Signal::new();
    let capped = StepEnd::Signal { signal: signal.clone(), max: Some(5) };
    assert!(!capped.is_done(4));
    assert!(capped.is_done(5));
    let open = StepEnd::Signal { signal: signal.clone(), max: None };
    assert!(!open.is_done(1_000_000));
    signal.fire();
    assert!(open.is_done(0));
    assert!(open.is_done_given(0, true));
    assert!(!open.is_done_given(u128::MAX, false));
}

#[test]
fn signal_is_shared_by_clones() {
    let s = Signal::new();
    let c = s.clone();
    assert!(!s.is_fired());
    c.fire();
    assert!(s.is_fired());
    let t = Timeline::new(1).spin_until_or(s, 42);
    assert!(matches!(t.steps()[0].end, StepEnd::Signal { max: Some(42), .. }));
}

#[test]
fn frame_sleep_reaches_next_boundary() {
    assert_eq!(frame_sleep_nanos(0), 16_000_000);
    assert_eq!(frame_sleep_nanos(5), 15_999_995);
    assert_eq!(frame_sleep_nanos(16_000_000), 16_000_000);
    assert_eq!(frame_sleep_nanos(31_999_999), 1);
}
