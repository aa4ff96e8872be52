use pongos::game::{present_buffer, GameState};
use pongos::io::{
    screen_buffer_to_vga_array, text_fits_at, BackgroundColorCodes, Color, ForegroundColorCodes,
    ScreenBuffer, ScreenCharacter, Viewport, CELLS, FRAME_BYTES, HEIGHT, WIDTH,
};

fn blank() -> ScreenCharacter {
    ScreenCharacter::default()
}

fn text(b: u8) -> ScreenCharacter {
    ScreenCharacter { color: Color::default(), character: b }
}

#[test]
fn color_attribute_bytes() {
    assert_eq!(Color::default().as_byte(), 0x0F);
    let c = Color::new(BackgroundColorCodes::BLUE, ForegroundColorCodes::WHITE);
    assert_eq!(c.as_byte(), 0x1F);
    let c = Color::new(BackgroundColorCodes::WHITE, ForegroundColorCodes::RED);
    assert_eq!(c.as_byte(), 0xF4);
    let c = Color::new(BackgroundColorCodes::GREEN, ForegroundColorCodes::BLACK);
    assert_eq!(c.as_byte(), 0x20);
    let c = Color::new(BackgroundColorCodes::RED, ForegroundColorCodes::GREEN);
    assert_eq!(c.as_byte(), 0x42);
}

#[test]
fn default_cell_is_blank() {
    let c = ScreenCharacter::default();
    assert_eq!(c.character, 0);
    assert_eq!(c.color, Color::default());
}

#[test]
fn fresh_viewport_is_blank_at_origin() {
    let v = Viewport::default();
    assert_eq!(v.cursor(), (0, 0));
    assert!(v.writes_to_vga_ptr());
    for row in 0..HEIGHT {
        for col in 0..WIDTH {
            assert_eq!(v.buffer().get(col, row), blank());
        }
    }
    assert!(v.device().iter().all(|b| *b == 0));
}

#[test]
fn newline_scenario() {
    let mut v = Viewport::default();
    v.write_str("AB\nC");
    assert_eq!(v.buffer().get(0, 0), text(b'A'));
    assert_eq!(v.buffer().get(1, 0), text(b'B'));
    for col in 2..WIDTH {
        assert_eq!(v.buffer().get(col, 0), blank());
    }
    assert_eq!(v.buffer().get(0, 1), text(b'C'));
    for col in 1..WIDTH {
        assert_eq!(v.buffer().get(col, 1), blank());
    }
    assert_eq!(v.cursor(), (2, 1));
    // the device mirrors the same cells, two bytes each
    assert_eq!(&v.device()[0..4], &[b'A', 0x0F, b'B', 0x0F]);
    assert_eq!(&v.device()[2 * WIDTH..2 * WIDTH + 2], &[b'C', 0x0F]);
    assert_eq!(v.device()[4], 0);
}

#[test]
fn appending_equals_one_write() {
    let mut a = Viewport::default();
    a.write_str("hello ");
    a.write_str("world");
    let mut b = Viewport::default();
    b.write_str("hello world");
    assert_eq!(a.cursor(), b.cursor());
    assert_eq!(a.cursor(), (22, 0));
    for row in 0..HEIGHT {
        for col in 0..WIDTH {
            assert_eq!(a.buffer().get(col, row), b.buffer().get(col, row));
        }
    }
    assert_eq!(a.device()[..], b.device()[..]);
}

#[test]
fn full_row_moves_to_next_row_without_blank_cell() {
    let mut v = Viewport::default();
    let line: String = std::iter::repeat('x').take(WIDTH).collect();
    v.write_str(&line);
    assert_eq!(v.cursor(), (0, 1));
    for col in 0..WIDTH {
        assert_eq!(v.buffer().get(col, 0), text(b'x'));
    }
    assert_eq!(v.buffer().get(0, 1), blank());
    v.write_str("y");
    assert_eq!(v.buffer().get(0, 1), text(b'y'));
    assert_eq!(v.cursor(), (2, 1));
}

#[test]
fn last_row_wraps_to_row_zero() {
    let mut v = Viewport::default();
    for _ in 0..HEIGHT - 1 {
        v.write_str("\n");
    }
    assert_eq!(v.cursor(), (0, HEIGHT - 1));
    v.write_str("z\n");
    assert_eq!(v.buffer().get(0, HEIGHT - 1), text(b'z'));
    assert_eq!(v.cursor(), (0, 0));
    v.write_str("q");
    assert_eq!(v.buffer().get(0, 0), text(b'q'));
}

#[test]
fn full_last_row_wraps_to_row_zero() {
    let mut v = Viewport::default();
    for _ in 0..HEIGHT - 1 {
        v.write_str("\n");
    }
    let line: String = std::iter::repeat('w').take(WIDTH).collect();
    v.write_str(&line);
    assert_eq!(v.cursor(), (0, 0));
    assert_eq!(v.buffer().get(WIDTH - 1, HEIGHT - 1), text(b'w'));
}

#[test]
fn addressed_write_touches_only_its_cells() {
    let mut v = Viewport::default();
    v.write_str("ab");
    v.write_str_to_pos("XYZ", (5, 3));
    assert_eq!(v.cursor(), (4, 0));
    for row in 0..HEIGHT {
        for col in 0..WIDTH {
            let expected = if row == 3 && (5..8).contains(&col) {
                text(b"XYZ"[col - 5])
            } else if row == 0 && col < 2 {
                text(b"ab"[col])
            } else {
                blank()
            };
            assert_eq!(v.buffer().get(col, row), expected);
        }
    }
    let k = 2 * (3 * WIDTH + 5);
    assert_eq!(&v.device()[k..k + 6], &[b'X', 0x0F, b'Y', 0x0F, b'Z', 0x0F]);
    assert_eq!(v.device()[k + 6], 0);
    // the cursor-relative writer goes on where it was
    v.write_str("c");
    assert_eq!(v.buffer().get(2, 0), text(b'c'));
}

#[test]
fn addressed_write_up_to_the_row_end() {
    let mut v = Viewport::default();
    v.write_str_to_pos("ok", (WIDTH - 2, HEIGHT - 1));
    assert_eq!(v.buffer().get(WIDTH - 2, HEIGHT - 1), text(b'o'));
    assert_eq!(v.buffer().get(WIDTH - 1, HEIGHT - 1), text(b'k'));
    assert_eq!(v.device()[FRAME_BYTES - 2], b'k');
    assert_eq!(v.cursor(), (0, 0));
}

#[test]
fn out_of_grid_positions_are_refused() {
    assert!(!text_fits_at("X", (WIDTH, 0)));
    assert!(!text_fits_at("", (WIDTH, 0)));
    assert!(!text_fits_at("X", (0, HEIGHT)));
    assert!(!text_fits_at("XY", (WIDTH - 1, 0)));
    assert!(text_fits_at("X", (WIDTH - 1, 0)));
    assert!(text_fits_at("", (0, 0)));
}

#[test]
fn writes_without_mirroring_leave_the_device() {
    let mut v = Viewport::default();
    v.set_write_to_vga_ptr(false);
    assert!(!v.writes_to_vga_ptr());
    v.write_str("hi");
    v.write_str_to_pos("yo", (0, 2));
    assert_eq!(v.buffer().get(0, 0), text(b'h'));
    assert_eq!(v.buffer().get(1, 2), text(b'o'));
    assert!(v.device().iter().all(|b| *b == 0));
    assert_eq!(v.cursor(), (4, 0));
}

#[test]
fn reset_returns_to_default() {
    let mut v = Viewport::default();
    v.write_str("some text\nmore");
    v.write_str_to_pos("abc", (10, 10));
    v.set_write_to_vga_ptr(false);
    v.reset_viewport();
    assert_eq!(v.cursor(), (0, 0));
    assert!(v.writes_to_vga_ptr());
    for row in 0..HEIGHT {
        for col in 0..WIDTH {
            assert_eq!(v.buffer().get(col, row), blank());
        }
    }
    assert!(v.device().iter().all(|b| *b == 0));
}

fn sample_grid() -> ScreenBuffer {
    let mut g = ScreenBuffer::new();
    let red = Color::new(BackgroundColorCodes::BLACK, ForegroundColorCodes::RED);
    g.set(0, 0, ScreenCharacter { color: red, character: b'P' });
    g.set(WIDTH - 1, 0, text(b'Q'));
    g.set(3, 7, ScreenCharacter { color: Color::new(BackgroundColorCodes::BLUE, ForegroundColorCodes::GREEN), character: b'R' });
    g.set(WIDTH - 1, HEIGHT - 1, text(b'S'));
    g
}

#[test]
fn flatten_layout() {
    let g = sample_grid();
    let f = screen_buffer_to_vga_array(g);
    assert_eq!(f.len(), FRAME_BYTES);
    assert_eq!(&f[0..2], &[b'P', 0x04]);
    assert_eq!(&f[2..4], &[0, 0x0F]);
    assert_eq!(&f[2 * (WIDTH - 1)..2 * WIDTH], &[b'Q', 0x0F]);
    let k = 2 * (7 * WIDTH + 3);
    assert_eq!(&f[k..k + 2], &[b'R', 0x12]);
    assert_eq!(&f[FRAME_BYTES - 2..], &[b'S', 0x0F]);
    assert_eq!(CELLS * 2, FRAME_BYTES);
}

#[test]
fn blit_equals_cell_writes() {
    let g = sample_grid();
    let mut by_cells = Viewport::default();
    for row in 0..HEIGHT {
        for col in 0..WIDTH {
            let c = g.get(col, row);
            let mut one = [0u8; 1];
            one[0] = c.character;
            // addressed writes use the default color, so only default-colored
            // cells can go this way; the others take the same bytes below
            if c.color == Color::default() {
                by_cells.write_str_to_pos(std::str::from_utf8(&one).unwrap_or("\0"), (col, row));
            }
        }
    }
    let mut blitted = Viewport::default();
    blitted.draw_frame(screen_buffer_to_vga_array(g));
    let redrawn = Viewport::new_with_buffer(g);
    assert_eq!(blitted.device()[..], redrawn.device()[..]);
    for row in 0..HEIGHT {
        for col in 0..WIDTH {
            let c = g.get(col, row);
            if c.color == Color::default() {
                let k = 2 * (row * WIDTH + col);
                assert_eq!(by_cells.device()[k..k + 2], blitted.device()[k..k + 2]);
            }
        }
    }
    // blit leaves the shadow buffer alone
    assert_eq!(blitted.buffer().get(0, 0), blank());
    assert_eq!(redrawn.buffer().get(0, 0), g.get(0, 0));
}

#[test]
fn buffer_mut_then_present() {
    let mut v = Viewport::default();
    v.buffer_mut().set(1, 1, text(b'M'));
    assert_eq!(v.buffer().get(1, 1), text(b'M'));
    assert!(v.device().iter().all(|b| *b == 0));
    present_buffer(&mut v);
    let k = 2 * (WIDTH + 1);
    assert_eq!(&v.device()[k..k + 2], &[b'M', 0x0F]);
    assert_eq!(v.device()[0], 0);
    assert_eq!(v.device()[1], 0x0F);
}

#[test]
fn game_state_ticks_and_draws() {
    let shared = spin::Mutex::new(Viewport::default());
    shared.lock().write_str("before");
    let mut game = GameState::new(&shared);
    assert_eq!(game.tick_count(), 0);
    assert_eq!(shared.lock().buffer().get(0, 0), blank());
    game.tick();
    game.tick();
    assert_eq!(game.tick_count(), 2);
    shared.lock().buffer_mut().set(0, 0, text(b'G'));
    game.draw_frame();
    assert_eq!(&shared.lock().device()[0..2], &[b'G', 0x0F]);
}
