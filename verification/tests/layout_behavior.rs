//! Behavior tests for the glyph layout engine.

use froggy_notes::color::Rgba;
use froggy_notes::layout::{Canvas, Coord, Font, Glyph};
use froggy_notes::note::{Note, Statement, TextCursor};

fn white() -> Rgba {
    Rgba::white()
}

fn dimmed() -> Rgba {
    Rgba {
        r: 127,
        g: 127,
        b: 127,
        a: 255,
    }
}

fn transparent() -> Rgba {
    Rgba { r: 0, g: 0, b: 0, a: 0 }
}

/// A glyph whose bitmap is fully on.
fn solid(w: usize, h: usize, adv: i64) -> Glyph {
    Glyph {
        size_x: w,
        size_y: h,
        off_x: 0,
        off_y: 0,
        dwidth: adv,
        pixels: vec![true; w * h],
    }
}

/// A glyph whose bitmap is fully off (like a space).
fn blank(w: usize, h: usize, adv: i64) -> Glyph {
    Glyph {
        size_x: w,
        size_y: h,
        off_x: 0,
        off_y: 0,
        dwidth: adv,
        pixels: vec![false; w * h],
    }
}

fn stmt(text: &str) -> Statement {
    Statement {
        text: text.chars().collect(),
        col: Rgba::white(),
    }
}

#[test]
fn canvas_starts_transparent() {
    let c = Canvas::new(3, 2);
    for y in 0..2 {
        for x in 0..3 {
            assert_eq!(c.get_pixel(x, y), transparent());
        }
    }
}

#[test]
fn font_lookup_prefers_entry_over_fallback() {
    let font = Font {
        glyphs: vec![('a', solid(1, 1, 7))],
        fallback: solid(1, 1, 9),
    };
    assert_eq!(font.glyph('a').dwidth, 7);
    assert_eq!(font.glyph('z').dwidth, 9);
}

#[test]
fn eleventh_glyph_wraps_to_new_line() {
    // A canvas 50 pixels wide fits exactly 10 glyphs of advance 5 and ink
    // width 4: the 11th wraps to horizontal offset 0, one glyph height
    // further down.
    let font = Font {
        glyphs: vec![],
        fallback: solid(4, 5, 5),
    };
    let mut canvas = Canvas::new(50, 40);
    let mut pen = Coord::new(0, 0);
    let mut s = stmt("aaaaaaaaaaa");
    s.render_into(&mut canvas, &mut pen, TextCursor::Hidden, &font);
    // Tenth glyph sits at x = 45 on the first line.
    assert_eq!(canvas.get_pixel(45, 0), white());
    assert_eq!(canvas.get_pixel(48, 0), white());
    assert_eq!(canvas.get_pixel(49, 0), transparent());
    // Eleventh glyph wrapped to (0, 5).
    assert_eq!(canvas.get_pixel(0, 5), white());
    assert_eq!(canvas.get_pixel(3, 9), white());
    assert_eq!(canvas.get_pixel(5, 5), transparent());
    // The next statement would start below the wrapped line plus the
    // line-spacing gap.
    assert_eq!(pen.y, 5 + 5 + 15);
    assert_eq!(pen.x, 0);
}

#[test]
fn ten_glyphs_do_not_wrap() {
    let font = Font {
        glyphs: vec![],
        fallback: solid(4, 5, 5),
    };
    let mut canvas = Canvas::new(50, 40);
    let mut pen = Coord::new(0, 0);
    let mut s = stmt("aaaaaaaaaa");
    s.render_into(&mut canvas, &mut pen, TextCursor::Hidden, &font);
    assert_eq!(canvas.get_pixel(45, 0), white());
    // Nothing wrapped: the second line is empty.
    for x in 0..50 {
        assert_eq!(canvas.get_pixel(x, 5), transparent());
    }
    assert_eq!(pen.y, 0 + 5 + 15);
}

#[test]
fn empty_statement_without_cursor_renders_dimmed_placeholder() {
    // An empty, unfocused statement substitutes the placeholder text in a
    // dimmed color.
    let font = Font {
        glyphs: vec![(' ', blank(1, 1, 1)), ('_', solid(1, 1, 1))],
        fallback: solid(1, 1, 1),
    };
    let mut canvas = Canvas::new(100, 20);
    let mut pen = Coord::new(0, 0);
    let mut s = stmt("");
    s.render_into(&mut canvas, &mut pen, TextCursor::Hidden, &font);
    assert_eq!(s.col, dimmed());
    // 'W' of the placeholder, via the fallback glyph.
    assert_eq!(canvas.get_pixel(0, 0), dimmed());
    assert_eq!(canvas.get_pixel(2, 0), dimmed());
    // Index 5 of "Write something here..." is a space: no ink.
    assert_eq!(canvas.get_pixel(5, 0), transparent());
    // The placeholder is 56 characters long.
    assert_eq!(canvas.get_pixel(55, 0), dimmed());
    assert_eq!(canvas.get_pixel(56, 0), transparent());
}

#[test]
fn empty_statement_with_cursor_renders_single_space() {
    // The moment a cursor is active on the empty statement, the rendered
    // text switches to a single space (plus the trailing cursor glyph), not
    // the placeholder.
    let font = Font {
        glyphs: vec![(' ', blank(1, 1, 1)), ('_', solid(1, 1, 1))],
        fallback: solid(1, 1, 1),
    };
    let mut canvas = Canvas::new(100, 20);
    let mut pen = Coord::new(0, 0);
    let mut s = stmt("");
    s.render_into(&mut canvas, &mut pen, TextCursor::End, &font);
    assert_eq!(s.col, white());
    // The space leaves no ink; the cursor glyph follows it.
    assert_eq!(canvas.get_pixel(0, 0), transparent());
    assert_eq!(canvas.get_pixel(1, 0), white());
    // No placeholder text beyond that.
    assert_eq!(canvas.get_pixel(2, 0), transparent());
    assert_eq!(canvas.get_pixel(3, 0), transparent());
}

#[test]
fn end_cursor_glyph_is_appended() {
    let font = Font {
        glyphs: vec![('_', solid(1, 2, 3))],
        fallback: solid(2, 2, 3),
    };
    let mut canvas = Canvas::new(30, 10);
    let mut pen = Coord::new(0, 0);
    let mut s = stmt("a");
    s.render_into(&mut canvas, &mut pen, TextCursor::End, &font);
    // 'a' at x = 0..2, then '_' at x = 3.
    assert_eq!(canvas.get_pixel(0, 0), white());
    assert_eq!(canvas.get_pixel(3, 0), white());
    assert_eq!(canvas.get_pixel(4, 0), transparent());
}

#[test]
fn in_text_cursor_overstrikes_its_character() {
    // The cursor glyph is drawn at the same pen position as the character
    // it sits on; the pen then advances by the cursor glyph's width.
    let font = Font {
        glyphs: vec![(' ', blank(1, 1, 3)), ('_', solid(1, 1, 3))],
        fallback: solid(2, 2, 3),
    };
    let mut canvas = Canvas::new(30, 10);
    let mut pen = Coord::new(0, 0);
    let mut s = stmt("ab");
    s.render_into(&mut canvas, &mut pen, TextCursor::InText(0), &font);
    // 'a' and the cursor glyph share x = 0; 'b' follows at x = 3.
    assert_eq!(canvas.get_pixel(0, 0), white());
    assert_eq!(canvas.get_pixel(3, 0), white());
    assert_eq!(canvas.get_pixel(2, 0), transparent());
}

#[test]
fn glyph_offsets_shift_ink() {
    let g = Glyph {
        size_x: 1,
        size_y: 1,
        off_x: 2,
        off_y: 3,
        dwidth: 1,
        pixels: vec![true],
    };
    let font = Font {
        glyphs: vec![],
        fallback: g,
    };
    let mut canvas = Canvas::new(10, 10);
    let mut pen = Coord::new(0, 0);
    let mut s = stmt("a");
    s.render_into(&mut canvas, &mut pen, TextCursor::Hidden, &font);
    assert_eq!(canvas.get_pixel(2, 3), white());
    assert_eq!(canvas.get_pixel(0, 0), transparent());
}

#[test]
fn off_canvas_ink_is_clipped() {
    let g = Glyph {
        size_x: 3,
        size_y: 1,
        off_x: -1,
        off_y: 0,
        dwidth: 1,
        pixels: vec![true, true, true],
    };
    let font = Font {
        glyphs: vec![],
        fallback: g,
    };
    let mut canvas = Canvas::new(4, 2);
    let mut pen = Coord::new(0, 0);
    let mut s = stmt("a");
    s.render_into(&mut canvas, &mut pen, TextCursor::Hidden, &font);
    // The pixel at glyph x = 0 lands at canvas x = -1 and is dropped.
    assert_eq!(canvas.get_pixel(0, 0), white());
    assert_eq!(canvas.get_pixel(1, 0), white());
    assert_eq!(canvas.get_pixel(2, 0), transparent());
}

#[test]
fn draw_stacks_statements_with_line_spacing() {
    let font = Font {
        glyphs: vec![],
        fallback: solid(1, 2, 1),
    };
    let mut n = Note {
        statements: vec![stmt("a"), stmt("b")],
        text_cursor: (0, TextCursor::Hidden),
    };
    let canvas = n.draw(20, 40, &font);
    // First statement starts at pen (0, 1).
    assert_eq!(canvas.get_pixel(0, 1), white());
    assert_eq!(canvas.get_pixel(0, 2), white());
    // Second statement starts a glyph height plus the line-spacing gap
    // below: y = 1 + 2 + 15 = 18.
    assert_eq!(canvas.get_pixel(0, 18), white());
    assert_eq!(canvas.get_pixel(0, 19), white());
    assert_eq!(canvas.get_pixel(0, 3), transparent());
    assert_eq!(canvas.get_pixel(0, 17), transparent());
    // Texts survive a draw; both statements were rendered in white.
    assert_eq!(n.statements.len(), 2);
    assert_eq!(n.statements[0].col, white());
    assert_eq!(n.statements[1].col, white());
}

#[test]
fn draw_renders_focused_statement_cursor() {
    let font = Font {
        glyphs: vec![('_', solid(1, 2, 1))],
        fallback: blank(1, 2, 1),
    };
    let mut n = Note {
        statements: vec![stmt("a"), stmt("b")],
        text_cursor: (1, TextCursor::End),
    };
    let canvas = n.draw(20, 40, &font);
    // Statement 0 is unfocused: 'a' leaves no ink (blank fallback) and no
    // cursor glyph is drawn on its line.
    assert_eq!(canvas.get_pixel(1, 1), transparent());
    // Statement 1 carries the cursor: '_' after 'b' at x = 1, y = 18.
    assert_eq!(canvas.get_pixel(1, 18), white());
}

#[test]
fn sample_screen_maps_offsets_and_bounds() {
    let font = Font {
        glyphs: vec![],
        fallback: solid(1, 1, 1),
    };
    let mut n = Note {
        statements: vec![stmt("a")],
        text_cursor: (0, TextCursor::Hidden),
    };
    let canvas = n.draw(8, 6, &font);
    // The glyph ink sits at canvas (0, 1); screen (40, 41) maps there with
    // offset (40, 40) and scale 1.
    assert_eq!(canvas.sample_screen(40, 41, 40, 40, 1), Some(white()));
    assert_eq!(canvas.sample_screen(41, 41, 40, 40, 1), Some(transparent()));
    // Left or above the text area: no pixel.
    assert_eq!(canvas.sample_screen(39, 41, 40, 40, 1), None);
    assert_eq!(canvas.sample_screen(40, 39, 40, 40, 1), None);
    // Past the canvas extent: no pixel.
    assert_eq!(canvas.sample_screen(48, 40, 40, 40, 1), None);
    assert_eq!(canvas.sample_screen(40, 46, 40, 40, 1), None);
}

#[test]
fn draw_fresh_document_shows_only_the_cursor() {
    // The startup state: one empty statement, cursor at its append
    // position. The statement renders as a single space followed by the
    // cursor glyph, not as the placeholder.
    let font = Font {
        glyphs: vec![(' ', blank(1, 1, 1)), ('_', solid(1, 1, 1))],
        fallback: solid(1, 1, 1),
    };
    let mut n = froggy_notes::note::Note::new();
    let canvas = n.draw(100, 20, &font);
    // Pen starts at (0, 1): the space leaves no ink, the cursor glyph
    // lands at x = 1.
    assert_eq!(canvas.get_pixel(0, 1), transparent());
    assert_eq!(canvas.get_pixel(1, 1), white());
    // No placeholder text follows.
    assert_eq!(canvas.get_pixel(2, 1), transparent());
    assert_eq!(n.statements[0].col, white());
}
