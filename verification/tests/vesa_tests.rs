use curi_os::vesa_buffer::{
    draw_line, draw_pixel, Colour16Bit, Screen, Writer, SCREEN_HEIGHT, SCREEN_WIDTH,
};
use font8x8::UnicodeFonts;

#[test]
fn test_named_colours_pack() {
    assert_eq!(Colour16Bit::red().as_u16(), 0xf800);
    assert_eq!(Colour16Bit::green().as_u16(), 0x07e0);
    assert_eq!(Colour16Bit::blue().as_u16(), 0x001f);
    assert_eq!(Colour16Bit::white().as_u16(), 0xffff);
}

#[test]
fn test_from_u16_unpacks_channels() {
    let c = Colour16Bit::from_u16(0xf800);
    assert_eq!((c.red, c.green, c.blue), (0x1f, 0, 0));
    let c = Colour16Bit::from_u16(0x07e0);
    assert_eq!((c.red, c.green, c.blue), (0, 0x3f, 0));
    let c = Colour16Bit::from_u16(0x001f);
    assert_eq!((c.red, c.green, c.blue), (0, 0, 0x1f));
    let c = Colour16Bit::from_u16(0xffff);
    assert_eq!((c.red, c.green, c.blue), (0x1f, 0x3f, 0x1f));
}

#[test]
fn test_colour_roundtrip() {
    let c = Colour16Bit { red: 17, green: 42, blue: 9 };
    let d = Colour16Bit::from_u16(c.as_u16());
    assert_eq!((d.red, d.green, d.blue), (17, 42, 9));
}

#[test]
fn test_plot_and_get() {
    let mut screen = Screen::new();
    let blue = Colour16Bit::blue();
    screen.plot_pixel(10, 20, &blue);
    let c = screen.get_colour_at(10, 20);
    assert_eq!((c.red, c.green, c.blue), (0, 0, 0x1f));
    let c = screen.get_colour_at(11, 20);
    assert_eq!((c.red, c.green, c.blue), (0, 0, 0));
}

#[test]
fn test_swap_publishes_back_buffer() {
    let mut screen = Screen::new();
    let red = Colour16Bit::red();
    screen.plot_pixel(3, 4, &red);
    assert_eq!(screen.front_pixel(3, 4), 0x0000);
    screen.swap_buffers();
    assert_eq!(screen.front_pixel(3, 4), 0xf800);
}

#[test]
fn test_clear_screen_blacks_everything() {
    let mut screen = Screen::new();
    let red = Colour16Bit::red();
    screen.plot_pixel(0, 0, &red);
    screen.plot_pixel(SCREEN_WIDTH - 1, SCREEN_HEIGHT - 1, &red);
    screen.clear_screen();
    assert_eq!(screen.get_colour_at(0, 0).as_u16(), 0);
    assert_eq!(
        screen.get_colour_at(SCREEN_WIDTH - 1, SCREEN_HEIGHT - 1).as_u16(),
        0
    );
    assert_eq!(screen.front_pixel(0, 0), 0);
}

#[test]
fn test_draw_red_square_bounds() {
    let mut screen = Screen::new();
    screen.draw_red_square();
    assert_eq!(screen.get_colour_at(400, 400).as_u16(), 0xf800);
    assert_eq!(screen.get_colour_at(499, 499).as_u16(), 0xf800);
    assert_eq!(screen.get_colour_at(450, 450).as_u16(), 0xf800);
    assert_eq!(screen.get_colour_at(399, 450).as_u16(), 0);
    assert_eq!(screen.get_colour_at(500, 450).as_u16(), 0);
    assert_eq!(screen.get_colour_at(450, 399).as_u16(), 0);
    assert_eq!(screen.get_colour_at(450, 500).as_u16(), 0);
}

#[test]
fn test_scroll_moves_rows_up() {
    let mut screen = Screen::new();
    let green = Colour16Bit::green();
    screen.plot_pixel(5, 8, &green);
    screen.plot_pixel(7, 3, &green);
    screen.scroll_buffer_vertically(8);
    // the pixel of row 8 is now in row 0; the pixel of row 3 left the screen
    assert_eq!(screen.get_colour_at(5, 0).as_u16(), 0x07e0);
    assert_eq!(screen.get_colour_at(7, 3).as_u16(), 0);
    // the freed bottom rows are black, and the result is published
    assert_eq!(screen.get_colour_at(5, SCREEN_HEIGHT - 1).as_u16(), 0);
    assert_eq!(screen.front_pixel(5, 0), 0x07e0);
}

#[test]
fn test_draw_sprite_to_front_buffer() {
    let mut screen = Screen::new();
    let mut sprite = [0u16; 16];
    sprite[0] = 0b1000_0000_0000_0001;
    sprite[15] = 0b1111_0000_0000_0000;
    screen.draw_sprite_to_fb(100, 50, sprite);
    assert_eq!(screen.front_pixel(100, 50), 0xffff);
    assert_eq!(screen.front_pixel(101, 50), 0x0000);
    assert_eq!(screen.front_pixel(115, 50), 0xffff);
    assert_eq!(screen.front_pixel(100, 65), 0xffff);
    assert_eq!(screen.front_pixel(103, 65), 0xffff);
    assert_eq!(screen.front_pixel(104, 65), 0x0000);
    // the back buffer is untouched
    assert_eq!(screen.get_colour_at(100, 50).as_u16(), 0);
}

#[test]
fn test_draw_pixel_free_function() {
    let mut screen = Screen::new();
    let white = Colour16Bit::white();
    draw_pixel(&mut screen, 1, 2, &white);
    assert_eq!(screen.get_colour_at(1, 2).as_u16(), 0xffff);
}

#[test]
fn test_draw_line_diagonal() {
    let mut screen = Screen::new();
    let white = Colour16Bit::white();
    draw_line(&mut screen, 0, 0, 3, 3, &white);
    for i in 0..4 {
        assert_eq!(screen.get_colour_at(i, i).as_u16(), 0xffff, "({}, {})", i, i);
    }
    assert_eq!(screen.get_colour_at(4, 4).as_u16(), 0);
    assert_eq!(screen.get_colour_at(1, 0).as_u16(), 0);
}

#[test]
fn test_draw_line_horizontal_and_vertical() {
    let mut screen = Screen::new();
    let red = Colour16Bit::red();
    draw_line(&mut screen, 10, 5, 14, 5, &red);
    for x in 10..=14 {
        assert_eq!(screen.get_colour_at(x, 5).as_u16(), 0xf800);
    }
    assert_eq!(screen.get_colour_at(15, 5).as_u16(), 0);
    let blue = Colour16Bit::blue();
    draw_line(&mut screen, 20, 30, 20, 25, &blue);
    for y in 25..=30 {
        assert_eq!(screen.get_colour_at(20, y).as_u16(), 0x001f);
    }
}

#[test]
fn test_draw_line_single_point() {
    let mut screen = Screen::new();
    let white = Colour16Bit::white();
    draw_line(&mut screen, 50, 60, 50, 60, &white);
    assert_eq!(screen.get_colour_at(50, 60).as_u16(), 0xffff);
    assert_eq!(screen.get_colour_at(51, 60).as_u16(), 0);
    assert_eq!(screen.get_colour_at(49, 60).as_u16(), 0);
}

#[test]
fn test_draw_line_endpoints_any_direction() {
    let mut screen = Screen::new();
    let white = Colour16Bit::white();
    draw_line(&mut screen, 700, 500, 100, 40, &white);
    assert_eq!(screen.get_colour_at(700, 500).as_u16(), 0xffff);
    assert_eq!(screen.get_colour_at(100, 40).as_u16(), 0xffff);
}

#[test]
fn test_writer_renders_glyph_from_basic_font() {
    let mut writer = Writer::new();
    let mut screen = Screen::new();
    writer.write_string(&mut screen, "A");
    assert_eq!(writer.position(), (8, 0));
    let glyph = font8x8::BASIC_FONTS.get('A').unwrap();
    for (dy, row) in glyph.iter().enumerate() {
        for dx in 0..8 {
            let expected = if row & (1 << dx) != 0 { 0xffff } else { 0x0000 };
            // the first character lands one cell in, at x = 8
            assert_eq!(
                screen.get_colour_at(8 + dx, dy).as_u16(),
                expected,
                "pixel ({}, {})",
                8 + dx,
                dy
            );
            // the rendered text is published to the front buffer
            assert_eq!(screen.front_pixel(8 + dx, dy), expected);
        }
    }
}

#[test]
fn test_writer_newline_moves_pen() {
    let mut writer = Writer::new();
    let mut screen = Screen::new();
    writer.write_string(&mut screen, "a\nb");
    // after a newline the pen starts the next 8-pixel text line
    assert_eq!(writer.position(), (8, 8));
}

#[test]
fn test_writer_wraps_at_right_edge() {
    let mut writer = Writer::new();
    let mut screen = Screen::new();
    // 98 characters bring the pen to column 784, one cell short of the edge
    let line: String = std::iter::repeat('x').take(98).collect();
    writer.write_string(&mut screen, &line);
    assert_eq!(writer.position(), (784, 0));
    // the 99th character fills the last cell and wraps the pen
    writer.write_string(&mut screen, "x");
    assert_eq!(writer.position(), (0, 8));
}

#[test]
fn test_writer_clear_screen_resets_pen() {
    let mut writer = Writer::new();
    let mut screen = Screen::new();
    writer.write_string(&mut screen, "hello\nworld");
    writer.clear_screen(&mut screen);
    assert_eq!(writer.position(), (0, 0));
    assert_eq!(screen.get_colour_at(8, 0).as_u16(), 0);
    assert_eq!(screen.front_pixel(8, 0), 0);
}

#[test]
fn test_writer_scrolls_at_bottom() {
    let mut writer = Writer::new();
    let mut screen = Screen::new();
    // 75 text lines of 8 pixels fill the 600-pixel height; one more scrolls
    for _ in 0..74 {
        writer.write_string(&mut screen, "\n");
    }
    assert_eq!(writer.position(), (0, 592));
    writer.write_string(&mut screen, "z\n");
    assert_eq!(writer.position(), (0, 592));
    // the glyph of 'z' drawn at row 592 moved up 8 pixels with the scroll
    let glyph = font8x8::BASIC_FONTS.get('z').unwrap();
    for (dy, row) in glyph.iter().enumerate() {
        for dx in 0..8 {
            let expected = if row & (1 << dx) != 0 { 0xffff } else { 0x0000 };
            assert_eq!(screen.get_colour_at(8 + dx, 584 + dy).as_u16(), expected);
        }
    }
}
