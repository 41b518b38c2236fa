use dravi::canvas::Canvas;
use dravi::decimal::parse_fields;
use dravi::editor::{Action, CoordinateSystem, Editor, Key, Mode, Rgb};
use dravi::glyph::Glyph;
use dravi::hex::parse_hex_color;
use dravi::keyboard::keyboard_position;
use dravi::raster::line_cells;

fn chars(s: &str) -> Vec<char> {
    s.chars().collect()
}

fn press_all(e: &mut Editor, s: &str) {
    for c in s.chars() {
        e.handle_key(Key::Char(c));
    }
}

#[test]
fn new_editor_defaults() {
    let e = Editor::new();
    assert_eq!(e.mode, Mode::Drawing);
    assert_eq!((e.cursor.x, e.cursor.y), (40000, 20000));
    assert_eq!((e.cursor.origin_x, e.cursor.origin_y), (40000, 20000));
    assert_eq!(e.tools.color, Rgb { r: 255, g: 105, b: 180 });
    assert_eq!(e.tools.glyph, Glyph::Point);
    assert!(e.tools.show_axes);
    assert!(!e.should_quit);
}

#[test]
fn moves_stay_on_canvas() {
    let mut e = Editor::new();
    for _ in 0..100 {
        e.handle_key(Key::Char('h'));
        e.handle_key(Key::Char('k'));
        assert!(e.cursor.x >= 0 && e.cursor.x <= 79000);
        assert!(e.cursor.y >= 0 && e.cursor.y <= 199000);
    }
    assert_eq!((e.cursor.x, e.cursor.y), (0, 0));
    for _ in 0..300 {
        e.handle_key(Key::Char('l'));
        e.handle_key(Key::Char('j'));
        assert!(e.cursor.x <= 79000 && e.cursor.y <= 199000);
    }
    assert_eq!((e.cursor.x, e.cursor.y), (79000, 199000));
    e.move_by(-1_000_000_000_000, 1_000_000_000_000);
    assert_eq!((e.cursor.x, e.cursor.y), (0, 199000));
}

#[test]
fn grid_snap_rounds_to_whole_cells() {
    let mut e = Editor::new();
    e.cursor.x = 3400;
    e.cursor.y = 7500;
    e.handle_key(Key::Char('n'));
    assert!(e.tools.grid_snap);
    e.move_by(0, 0);
    assert_eq!((e.cursor.x, e.cursor.y), (3000, 8000));
    e.move_by(1250, -499);
    assert_eq!((e.cursor.x, e.cursor.y), (4000, 8000));
    e.move_by(-4500, 0);
    assert_eq!(e.cursor.x, 0);
    assert_eq!(e.cursor.x % 1000, 0);
    assert_eq!(e.cursor.y % 1000, 0);
}

#[test]
fn autoscroll_keeps_cursor_row_visible() {
    let mut e = Editor::new();
    for _ in 0..60 {
        e.handle_key(Key::Char('j'));
        let row = (e.cursor.y / 1000) as usize;
        assert!(e.cursor.scroll_y <= row && row <= e.cursor.scroll_y + 39);
    }
    assert_eq!(e.cursor.y, 80000);
    assert_eq!(e.cursor.scroll_y, 41);
    for _ in 0..80 {
        e.handle_key(Key::Char('k'));
        let row = (e.cursor.y / 1000) as usize;
        assert!(e.cursor.scroll_y <= row && row <= e.cursor.scroll_y + 39);
    }
    assert_eq!(e.cursor.scroll_y, 0);
}

#[test]
fn manual_scroll_is_clamped() {
    let mut e = Editor::new();
    e.handle_key(Key::Char('K'));
    assert_eq!(e.cursor.scroll_y, 0);
    for _ in 0..100 {
        e.handle_key(Key::Char('J'));
    }
    assert_eq!(e.cursor.scroll_y, 160);
    assert_eq!(e.cursor.y, 20000);
    e.handle_key(Key::Char('K'));
    assert_eq!(e.cursor.scroll_y, 157);
}

#[test]
fn line_is_symmetric() {
    let cases = [(0, 0, 2, 1), (0, 0, 5, 3), (7, 2, 1, 9), (3, 3, 3, 3), (0, 4, 6, 4), (2, 9, 2, 0)];
    for &(x0, y0, x1, y1) in cases.iter() {
        let ab = line_cells(x0, y0, x1, y1);
        let mut ba = line_cells(x1, y1, x0, y0);
        ba.reverse();
        assert_eq!(ab, ba);
    }
}

#[test]
fn line_includes_both_ends() {
    let cases = [(0, 0, 2, 1), (10, 3, 0, 0), (4, 4, 4, 4), (1, 8, 6, 2)];
    for &(x0, y0, x1, y1) in cases.iter() {
        let p = line_cells(x0, y0, x1, y1);
        assert_eq!(p[0], (x0, y0));
        assert_eq!(*p.last().unwrap(), (x1, y1));
    }
}

#[test]
fn line_shallow_slope() {
    assert_eq!(line_cells(0, 0, 4, 2), vec![(0, 0), (1, 1), (2, 1), (3, 2), (4, 2)]);
    assert_eq!(line_cells(0, 0, 3, 0), vec![(0, 0), (1, 0), (2, 0), (3, 0)]);
}

#[test]
fn cartesian_round_trip() {
    let mut e = Editor::new();
    e.handle_key(Key::Char('g'));
    assert_eq!(e.mode, Mode::CoordinateInput);
    press_all(&mut e, "3,4");
    let act = e.handle_key(Key::Enter);
    assert_eq!(act, Action::Nothing);
    assert_eq!(e.mode, Mode::Drawing);
    assert!(e.coordinate_input.is_empty());
    assert_eq!(e.relative_coordinates(), (3000, 4000));
    assert_eq!((e.cursor.x, e.cursor.y), (43000, 16000));
}

#[test]
fn cartesian_target_is_clamped() {
    let mut e = Editor::new();
    e.handle_key(Key::Char('g'));
    press_all(&mut e, "-100, -500.5");
    e.handle_key(Key::Enter);
    assert_eq!((e.cursor.x, e.cursor.y), (0, 199000));
}

#[test]
fn malformed_coordinates_leave_cursor() {
    let mut e = Editor::new();
    e.handle_key(Key::Char('g'));
    press_all(&mut e, "3");
    e.handle_key(Key::Enter);
    assert_eq!((e.cursor.x, e.cursor.y), (40000, 20000));
    e.handle_key(Key::Char('g'));
    press_all(&mut e, "3,-");
    e.handle_key(Key::Enter);
    assert_eq!((e.cursor.x, e.cursor.y), (40000, 20000));
    e.handle_key(Key::Char('g'));
    press_all(&mut e, "1 2,3");
    e.handle_key(Key::Enter);
    assert_eq!((e.cursor.x, e.cursor.y), (40000, 20000));
}

#[test]
fn extra_coordinate_fields_leave_cursor() {
    let mut e = Editor::new();
    e.handle_key(Key::Char('g'));
    press_all(&mut e, "1,2,3");
    e.handle_key(Key::Enter);
    assert_eq!((e.cursor.x, e.cursor.y), (40000, 20000));
    e.handle_key(Key::Char('g'));
    press_all(&mut e, "1,2,");
    e.handle_key(Key::Enter);
    assert_eq!((e.cursor.x, e.cursor.y), (40000, 20000));
    e.handle_key(Key::Char('3'));
    e.handle_key(Key::Char('g'));
    press_all(&mut e, "1,2,3,4");
    assert_eq!(e.handle_key(Key::Enter), Action::Nothing);
    assert_eq!(parse_fields(&chars("1,2,3"), 2), None);
    assert_eq!(parse_fields(&chars("1,2,"), 2), None);
    assert_eq!(parse_fields(&chars("1,2,3"), 3), Some(vec![1000, 2000, 3000]));
}

#[test]
fn unbounded_steps_are_clamped() {
    let mut e = Editor::new();
    e.move_by(i64::MAX, i64::MIN);
    assert_eq!((e.cursor.x, e.cursor.y), (79000, 0));
    e.handle_key(Key::Char('n'));
    e.move_by(i64::MIN, i64::MAX);
    assert_eq!((e.cursor.x, e.cursor.y), (0, 199000));
    assert_eq!(e.cursor.scroll_y, 160);
    e.place_at_offset(i64::MIN, i64::MIN);
    assert_eq!((e.cursor.x, e.cursor.y), (0, 199000));
}

#[test]
fn coordinate_input_filters_and_limits() {
    let mut e = Editor::new();
    e.handle_key(Key::Char('g'));
    press_all(&mut e, "1a,x2");
    assert_eq!(e.coordinate_input, chars("1,2"));
    press_all(&mut e, "0123456789012345678901");
    assert_eq!(e.coordinate_input.len(), 20);
    e.handle_key(Key::Backspace);
    assert_eq!(e.coordinate_input.len(), 19);
}

#[test]
fn polar_and_cylindrical_are_handed_out() {
    let mut e = Editor::new();
    e.handle_key(Key::Char('2'));
    assert_eq!(e.tools.system, CoordinateSystem::Polar);
    e.handle_key(Key::Char('g'));
    press_all(&mut e, "5,90");
    assert_eq!(e.handle_key(Key::Enter), Action::Polar(5000, 90000));
    e.handle_key(Key::Char('3'));
    e.handle_key(Key::Char('g'));
    press_all(&mut e, "2, 45, 10");
    assert_eq!(e.handle_key(Key::Enter), Action::Cylindrical(2000, 45000, 10000));
    e.handle_key(Key::Char('g'));
    press_all(&mut e, "2,45");
    assert_eq!(e.handle_key(Key::Enter), Action::Nothing);
}

#[test]
fn place_at_offset_moves_from_origin() {
    let mut e = Editor::new();
    e.place_at_offset(-2500, 1500);
    assert_eq!((e.cursor.x, e.cursor.y), (37500, 18500));
    assert_eq!(e.relative_coordinates(), (-2500, 1500));
}

#[test]
fn decimal_fields() {
    let v = parse_fields(&chars("-1.5, 2"), 2).unwrap();
    assert_eq!(v, vec![-1500, 2000]);
    let v = parse_fields(&chars(" .25 ,7.,9"), 3).unwrap();
    assert_eq!(v, vec![250, 7000, 9000]);
    let v = parse_fields(&chars("1.23456,0"), 2).unwrap();
    assert_eq!(v, vec![1234, 0]);
    assert_eq!(parse_fields(&chars("."), 1), None);
    assert_eq!(parse_fields(&chars("1,2"), 3), None);
    assert_eq!(parse_fields(&chars("--1,2"), 2), None);
    assert_eq!(parse_fields(&chars("99999999999999999999,0"), 2).unwrap()[0], 1_000_000_000_000);
}

#[test]
fn hex_color_parse() {
    assert_eq!(parse_hex_color(&chars("1A2B3C")), Some(Rgb { r: 26, g: 43, b: 60 }));
    assert_eq!(parse_hex_color(&chars("ff00a0")), Some(Rgb { r: 255, g: 0, b: 160 }));
    assert_eq!(parse_hex_color(&chars("1A2B3")), None);
    assert_eq!(parse_hex_color(&chars("1A2B3C4")), None);
    assert_eq!(parse_hex_color(&chars("1A2B3G")), None);
    assert_eq!(parse_hex_color(&chars("")), None);
}

#[test]
fn color_selection_applies_six_digits() {
    let mut e = Editor::new();
    e.handle_key(Key::Char('x'));
    assert_eq!(e.mode, Mode::ColorSelection);
    press_all(&mut e, "1a2zb3c9");
    assert_eq!(e.color_input, chars("1A2B3C"));
    e.handle_key(Key::Enter);
    assert_eq!(e.mode, Mode::Drawing);
    assert!(e.color_input.is_empty());
    assert_eq!(e.tools.color, Rgb { r: 26, g: 43, b: 60 });
}

#[test]
fn short_color_leaves_color_unchanged() {
    let mut e = Editor::new();
    e.handle_key(Key::Char('x'));
    press_all(&mut e, "12345");
    e.handle_key(Key::Backspace);
    assert_eq!(e.color_input, chars("1234"));
    e.handle_key(Key::Enter);
    assert_eq!(e.tools.color, Rgb { r: 255, g: 105, b: 180 });
    assert_eq!(e.mode, Mode::Drawing);
}

#[test]
fn escape_returns_from_every_mode() {
    let entries = ['f', 'x', 'g', 'i', '?', 'r'];
    for &k in entries.iter() {
        let mut e = Editor::new();
        let act = e.handle_key(Key::Char(k));
        assert_ne!(e.mode, Mode::Drawing);
        if k == 'r' {
            assert_eq!(act, Action::OpenViewer);
            assert_eq!(e.mode, Mode::PdfRender);
        }
        press_all(&mut e, "1a,");
        e.handle_key(Key::Esc);
        assert_eq!(e.mode, Mode::Drawing);
        assert!(e.color_input.is_empty());
        assert!(e.coordinate_input.is_empty());
        assert!(e.text_buffer.is_empty());
    }
}

#[test]
fn place_then_export_pure_glyphs() {
    let mut e = Editor::new();
    e.canvas.place(0, 0, Glyph::Horizontal);
    e.canvas.place(0, 1, Glyph::Vertical);
    let out: String = e.export().iter().collect();
    let lines: Vec<&str> = out.split('\n').collect();
    assert_eq!(lines[0], "```");
    assert_eq!(lines[1], "-|");
    assert_eq!(lines[2], "");
    assert_eq!(lines.len(), 203);
    assert_eq!(lines[201], "```");
    assert_eq!(lines[202], "");
}

#[test]
fn place_key_draws_at_cursor() {
    let mut e = Editor::new();
    e.handle_key(Key::Char('+'));
    e.handle_key(Key::Char(' '));
    assert_eq!(e.canvas.get(20, 40), Some(Glyph::Cross));
    e.handle_key(Key::Char('c'));
    assert_eq!(e.canvas.get(20, 40), None);
}

#[test]
fn continuous_draw_fills_path() {
    let mut e = Editor::new();
    e.cursor.x = 0;
    e.cursor.y = 0;
    e.handle_key(Key::Char('d'));
    assert!(e.tools.continuous_draw);
    e.handle_key(Key::Char('.'));
    e.move_by(3000, 0);
    for col in 0..4 {
        assert_eq!(e.canvas.get(0, col), Some(Glyph::Point));
    }
    assert_eq!(e.canvas.get(0, 4), None);
    assert_eq!(e.canvas.get(1, 0), None);
}

#[test]
fn typst_paired_completion() {
    let mut e = Editor::new();
    e.handle_key(Key::Char('i'));
    assert_eq!(e.mode, Mode::TypstInput);
    e.handle_key(Key::Char('('));
    assert_eq!(e.text_buffer, chars("()"));
    assert_eq!(e.text_cursor, 1);
    e.handle_key(Key::Char('x'));
    assert_eq!(e.text_buffer, chars("(x)"));
    assert_eq!(e.text_cursor, 2);
}

#[test]
fn typst_nested_openers_close_inside() {
    let mut e = Editor::new();
    e.handle_key(Key::Char('i'));
    press_all(&mut e, "($[{\"'");
    assert_eq!(e.text_buffer, chars("($[{\"''\"}]$)"));
    assert_eq!(e.text_cursor, 6);
    e.handle_key(Key::Char('\u{7}'));
    assert_eq!(e.text_buffer.len(), 12);
    e.handle_key(Key::Backspace);
    assert_eq!(e.text_buffer, chars("($[{\"'\"}]$)"));
    assert_eq!(e.text_cursor, 5);
}

#[test]
fn typst_backspace_at_start_drops_last() {
    let mut e = Editor::new();
    e.handle_key(Key::Char('i'));
    press_all(&mut e, "[");
    e.handle_key(Key::Backspace);
    assert_eq!(e.text_buffer, chars("]"));
    assert_eq!(e.text_cursor, 0);
    e.handle_key(Key::Backspace);
    assert!(e.text_buffer.is_empty());
    assert_eq!(e.cursor.x, 40000);
}

#[test]
fn typst_enter_writes_text_and_moves_down() {
    let mut e = Editor::new();
    e.cursor.x = 5000;
    e.handle_key(Key::Char('i'));
    press_all(&mut e, "ab");
    e.handle_key(Key::Enter);
    assert_eq!(e.canvas.get(20, 5), Some(Glyph::Text('a')));
    assert_eq!(e.canvas.get(20, 6), Some(Glyph::Text('b')));
    assert_eq!((e.cursor.x, e.cursor.y), (40000, 21000));
    assert_eq!(e.mode, Mode::Drawing);
    assert!(e.text_buffer.is_empty());
}

#[test]
fn typst_text_overflow_lands_in_last_column() {
    let mut e = Editor::new();
    e.cursor.x = 78000;
    e.handle_key(Key::Char('i'));
    press_all(&mut e, "xyz");
    e.handle_key(Key::Enter);
    assert_eq!(e.canvas.get(20, 78), Some(Glyph::Text('x')));
    assert_eq!(e.canvas.get(20, 79), Some(Glyph::Text('z')));
}

#[test]
fn typst_backspace_pops_then_erases() {
    let mut e = Editor::new();
    e.canvas.place(20, 39, Glyph::Cross);
    e.handle_key(Key::Char('i'));
    press_all(&mut e, "ab");
    e.handle_key(Key::Backspace);
    assert_eq!(e.text_buffer, chars("a"));
    e.handle_key(Key::Backspace);
    assert!(e.text_buffer.is_empty());
    e.handle_key(Key::Backspace);
    assert_eq!(e.cursor.x, 39000);
    assert_eq!(e.canvas.get(20, 39), None);
    assert_eq!(e.mode, Mode::TypstInput);
}

#[test]
fn selection_jumps_to_key() {
    let mut e = Editor::new();
    e.handle_key(Key::Char('f'));
    e.handle_key(Key::Char('1'));
    assert_eq!(e.mode, Mode::Selection);
    e.handle_key(Key::Char('l'));
    assert_eq!(e.mode, Mode::Drawing);
    assert_eq!((e.cursor.x, e.cursor.y), (64000, 13000));
    assert_eq!(keyboard_position('q'), Some((0, 0)));
    assert_eq!(keyboard_position(';'), Some((72, 13)));
    assert_eq!(keyboard_position('/'), Some((72, 26)));
    assert_eq!(keyboard_position('Q'), None);
}

#[test]
fn settings_toggle_in_place() {
    let mut e = Editor::new();
    e.handle_key(Key::Char('?'));
    press_all(&mut e, "and3");
    assert_eq!(e.mode, Mode::Settings);
    assert!(!e.tools.show_axes);
    assert!(e.tools.grid_snap);
    assert!(e.tools.continuous_draw);
    assert_eq!(e.tools.system, CoordinateSystem::Cylindrical);
    e.handle_key(Key::Char('?'));
    assert_eq!(e.mode, Mode::Drawing);
}

#[test]
fn drawing_keys() {
    let mut e = Editor::new();
    assert_eq!(e.handle_key(Key::Char('s')), Action::Export);
    e.handle_key(Key::Char('l'));
    e.handle_key(Key::Char('o'));
    assert_eq!((e.cursor.origin_x, e.cursor.origin_y), (41000, 20000));
    e.handle_key(Key::Char('\\'));
    assert_eq!(e.tools.glyph, Glyph::DiagLeft);
    e.handle_key(Key::Char('q'));
    assert!(e.should_quit);
}

#[test]
fn render_mode_returns_on_r() {
    let mut e = Editor::new();
    e.handle_key(Key::Char('r'));
    e.handle_key(Key::Char('x'));
    assert_eq!(e.mode, Mode::PdfRender);
    e.handle_key(Key::Char('r'));
    assert_eq!(e.mode, Mode::Drawing);
}

fn write_text(c: &mut Canvas, row: usize, col: usize, s: &str) {
    for (i, ch) in s.chars().enumerate() {
        c.place(row, col + i, Glyph::Text(ch));
    }
}

#[test]
fn export_paragraphs_join_and_classify() {
    let mut c = Canvas::new();
    write_text(&mut c, 0, 2, "Hello");
    write_text(&mut c, 1, 0, "world");
    write_text(&mut c, 3, 0, "x + 1 = 2");
    write_text(&mut c, 5, 0, "$a$ = b");
    write_text(&mut c, 7, 0, "a = b = c - d");
    let out: String = dravi::export::export_text(&c).iter().collect();
    assert_eq!(out, "Hello world\n\n$x + 1 = 2$\n\n$a$ = b\n\na = b = c - d\n\n");
}

#[test]
fn export_mixed_row_keeps_inner_gaps() {
    let mut c = Canvas::new();
    c.place(0, 0, Glyph::Point);
    c.place(0, 3, Glyph::Text('a'));
    c.place(0, 5, Glyph::Horizontal);
    let out: String = dravi::export::export_text(&c).iter().collect();
    assert_eq!(out, "\u{2022}  a -\n\n");
}

#[test]
fn export_trims_unicode_white_space() {
    let mut c = Canvas::new();
    write_text(&mut c, 0, 0, "\u{a0}word\u{a0}");
    let out: String = dravi::export::export_text(&c).iter().collect();
    assert_eq!(out, "word\n\n");
}

#[test]
fn export_final_row_paragraph_is_flushed() {
    let mut c = Canvas::new();
    write_text(&mut c, 198, 0, "a - b");
    write_text(&mut c, 199, 0, "= c");
    let out: String = dravi::export::export_text(&c).iter().collect();
    assert_eq!(out, "$a - b = c$\n");
}

#[test]
fn export_empty_canvas_is_blank_block() {
    let c = Canvas::new();
    let out: String = dravi::export::export_text(&c).iter().collect();
    let expected = format!("```\n{}```\n", "\n".repeat(200));
    assert_eq!(out, expected);
}

#[test]
fn continuous_draw_diagonal_stroke() {
    let mut e = Editor::new();
    e.cursor.x = 2000;
    e.cursor.y = 2000;
    e.handle_key(Key::Char('d'));
    e.handle_key(Key::Char('/'));
    e.move_by(-2000, -1000);
    assert_eq!(line_cells(2, 2, 0, 1), vec![(2, 2), (1, 2), (0, 1)]);
    assert_eq!(e.canvas.get(2, 2), Some(Glyph::DiagRight));
    assert_eq!(e.canvas.get(2, 1), Some(Glyph::DiagRight));
    assert_eq!(e.canvas.get(1, 0), Some(Glyph::DiagRight));
    assert_eq!(e.canvas.get(1, 1), None);
}
