use chip::display::{Display, Screen, DISPLAY_HEIGHT, DISPLAY_WIDTH};

const SPRITE: [u8; 3] = [0b0011_1111, 0b1111_1111, 0b1100_0010];
const SPRITE_BOOL: [[bool; 8]; 3] = [
    [false, false, true, true, true, true, true, true],
    [true, true, true, true, true, true, true, true],
    [true, true, false, false, false, false, true, false],
];

/// A display with every pixel lit and a redraw pending.
fn lit_display() -> Display {
    let mut display = Display::default();
    for y in [0u8, 8, 16, 24] {
        for x in [0u8, 8, 16, 24, 32, 40, 48, 56] {
            display.draw_sprite(&[0xFF; 8], x, y);
        }
    }
    display
}

fn lit_pixels(screen: &Screen) -> Vec<(usize, usize)> {
    let mut lit = Vec::new();
    for (row, pixels) in screen.iter().enumerate() {
        for (column, pixel) in pixels.iter().enumerate() {
            if *pixel {
                lit.push((row, column));
            }
        }
    }
    lit
}

#[test]
fn test_display_empty() {
    let mut display = lit_display();
    assert_eq!(*display.screen(), [[true; DISPLAY_WIDTH]; DISPLAY_HEIGHT]);

    display.clear();

    assert_eq!(*display.screen(), [[false; DISPLAY_WIDTH]; DISPLAY_HEIGHT]);
}

#[test]
fn test_sprite_no_colision() {
    let mut display = Display::default();

    let colision = display.draw_sprite(&SPRITE, 0, 0);

    assert!(!colision);

    for (height, sprite_result) in SPRITE_BOOL.into_iter().enumerate() {
        for (bit, result) in sprite_result.into_iter().enumerate() {
            assert_eq!(display.screen()[height][bit], result, "{bit}, {height}");
        }
    }
}

#[test]
fn test_sprite_colision() {
    let mut display = Display::default();

    display.draw_sprite(&SPRITE, 0, 0);
    let colision = display.draw_sprite(&SPRITE, 7, 0);

    assert!(colision);

    let results = [true, false, true];
    for (height, result) in results.into_iter().enumerate() {
        assert_eq!(display.screen()[height][7], result);
    }
}

#[test]
fn a_fresh_display_is_dark_and_needs_no_redraw() {
    let mut display = Display::default();

    assert_eq!(*display.screen(), [[false; DISPLAY_WIDTH]; DISPLAY_HEIGHT]);
    assert!(!display.must_draw());
    assert_eq!(DISPLAY_WIDTH, 64);
    assert_eq!(DISPLAY_HEIGHT, 32);
}

#[test]
fn the_redraw_flag_is_read_once() {
    let mut display = Display::default();

    display.clear();
    assert!(display.must_draw());
    assert!(!display.must_draw());
    assert!(!display.must_draw());

    display.draw_sprite(&[0x80], 0, 0);
    display.draw_sprite(&[0x80], 1, 0);
    assert!(display.must_draw());
    assert!(!display.must_draw());

    // Even a sprite that changes nothing asks for a redraw.
    display.draw_sprite(&[], 0, 0);
    assert!(display.must_draw());
    assert!(!display.must_draw());
}

#[test]
fn bits_are_drawn_most_significant_first() {
    let mut display = Display::default();

    display.draw_sprite(&[0b1000_0001, 0b0100_0000], 10, 5);

    assert_eq!(lit_pixels(display.screen()), vec![(5, 10), (5, 17), (6, 11)]);
}

#[test]
fn drawing_twice_restores_the_picture() {
    let sprites: [&[u8]; 4] = [
        &SPRITE,
        &[0xFF; 15],
        &[0xA5, 0x5A, 0x00, 0x81],
        &[],
    ];
    let places = [(0u8, 0u8), (7, 0), (60, 30), (63, 31), (200, 100), (255, 255)];
    for sprite in sprites {
        for (x, y) in places {
            let mut display = Display::default();
            display.draw_sprite(&[0xF0, 0x0F, 0x3C], 62, 31);
            display.draw_sprite(&[0xFF, 0x18], 5, 0);
            let before = *display.screen();

            display.draw_sprite(sprite, x, y);
            let once = *display.screen();
            let again = display.draw_sprite(sprite, x, y);

            assert_eq!(*display.screen(), before);
            // The second draw strikes exactly the pixels that the first one lit.
            let mut lit_by_first = false;
            for row in 0..DISPLAY_HEIGHT {
                for column in 0..DISPLAY_WIDTH {
                    if once[row][column] && !before[row][column] {
                        lit_by_first = true;
                    }
                }
            }
            assert_eq!(again, lit_by_first);
        }
    }
}

#[test]
fn drawing_twice_on_a_dark_screen_collides_unless_the_sprite_is_dark() {
    let mut display = Display::default();
    assert!(!display.draw_sprite(&SPRITE, 20, 10));
    assert!(display.draw_sprite(&SPRITE, 20, 10));
    assert_eq!(*display.screen(), [[false; DISPLAY_WIDTH]; DISPLAY_HEIGHT]);

    assert!(!display.draw_sprite(&[0, 0, 0], 20, 10));
    assert!(!display.draw_sprite(&[0, 0, 0], 20, 10));
}

#[test]
fn a_sprite_at_the_last_pixel_wraps_to_the_first_row_and_column() {
    let mut display = Display::default();

    let collision = display.draw_sprite(&[0b1100_0000, 0b1010_0000], 63, 31);

    assert!(!collision);
    // Row 0 of the sprite: bit 0 stays at (31, 63), bit 1 wraps to column 0.
    // Row 1 of the sprite wraps to row 0: bit 0 at column 63, bit 2 at column 1.
    assert_eq!(
        lit_pixels(display.screen()),
        vec![(0, 1), (0, 63), (31, 0), (31, 63)]
    );
}

#[test]
fn a_whole_sprite_wraps_pixel_by_pixel() {
    let mut display = Display::default();
    let sprite = [0xFF, 0x81, 0xFF];

    display.draw_sprite(&sprite, 63, 31);

    for row in 0..DISPLAY_HEIGHT {
        for column in 0..DISPLAY_WIDTH {
            let sprite_row = (row + DISPLAY_HEIGHT - 31) % DISPLAY_HEIGHT;
            let sprite_bit = (column + DISPLAY_WIDTH - 63) % DISPLAY_WIDTH;
            let expected = sprite_row < 3
                && sprite_bit < 8
                && sprite[sprite_row] & (0x80 >> sprite_bit) != 0;
            assert_eq!(display.screen()[row][column], expected, "{row}, {column}");
        }
    }
    assert!(display.screen()[31][63]);
    assert!(display.screen()[31][0]);
    assert!(display.screen()[0][63]);
    assert!(display.screen()[0][6]);
    assert!(display.screen()[1][6]);
    assert!(!display.screen()[0][0]);
    assert!(!display.screen()[2][0]);
    assert!(!display.screen()[31][7]);
}

#[test]
fn coordinates_beyond_the_screen_are_taken_round_it() {
    let mut wrapped = Display::default();
    wrapped.draw_sprite(&SPRITE, 64 + 3, 32 + 4);
    let mut plain = Display::default();
    plain.draw_sprite(&SPRITE, 3, 4);
    assert_eq!(*wrapped.screen(), *plain.screen());

    let mut far = Display::default();
    far.draw_sprite(&[0x80], 255, 255);
    assert_eq!(lit_pixels(far.screen()), vec![(31, 63)]);
}

#[test]
fn the_tallest_sprite_is_drawn_in_full() {
    let mut display = Display::default();

    let collision = display.draw_sprite(&[0xFF; 15], 0, 20);

    assert!(!collision);
    let lit = lit_pixels(display.screen());
    assert_eq!(lit.len(), 15 * 8);
    for row in 0..DISPLAY_HEIGHT {
        let expected = row >= 20 || row < 3;
        for column in 0..8 {
            assert_eq!(display.screen()[row][column], expected);
        }
    }
}

#[test]
fn a_collision_is_reported_even_if_only_one_pixel_is_struck() {
    let mut display = Display::default();
    display.draw_sprite(&[0x01], 0, 0);

    assert!(!display.draw_sprite(&[0xFE], 0, 0));
    assert_eq!(display.screen()[0][0..8], [true; 8]);
    assert!(display.draw_sprite(&[0x10], 0, 0));
    assert!(!display.screen()[0][3]);
    assert!(!display.draw_sprite(&[0x10], 0, 0));
}

#[test]
fn an_empty_or_dark_sprite_never_collides() {
    let mut display = lit_display();

    assert!(!display.draw_sprite(&[], 12, 7));
    assert!(!display.draw_sprite(&[0x00; 15], 12, 7));

    assert_eq!(*display.screen(), [[true; DISPLAY_WIDTH]; DISPLAY_HEIGHT]);
}

/// A small generator of numbers that look random, the same at every run.
fn next(seed: &mut u32) -> u32 {
    *seed = seed.wrapping_mul(1_664_525).wrapping_add(1_013_904_223);
    *seed >> 8
}

#[test]
fn drawing_agrees_with_a_pixel_by_pixel_account() {
    let mut seed = 2024;
    let mut display = Display::default();
    let mut expected = [[false; DISPLAY_WIDTH]; DISPLAY_HEIGHT];

    for _ in 0..500 {
        let rows = (next(&mut seed) % 16) as usize;
        let sprite: Vec<u8> = (0..rows).map(|_| next(&mut seed) as u8).collect();
        let x = next(&mut seed) as u8;
        let y = next(&mut seed) as u8;

        let mut struck = false;
        for (row, byte) in sprite.iter().enumerate() {
            for bit in 0..8 {
                if byte & (0x80 >> bit) != 0 {
                    let pixel = &mut expected[(y as usize + row) % 32][(x as usize + bit) % 64];
                    struck |= *pixel;
                    *pixel = !*pixel;
                }
            }
        }

        assert_eq!(display.draw_sprite(&sprite, x, y), struck);
        assert_eq!(*display.screen(), expected);
        assert!(display.must_draw());
    }
}
