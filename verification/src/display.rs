//! The monochrome framebuffer: 32 rows of 64 pixels, drawn by XOR, with a
//! flag that tells the host once that the picture changed.

use vstd::prelude::*;

verus! {

/// Pixels in a row.
pub const DISPLAY_WIDTH: usize = 64;

/// Rows on the screen.
pub const DISPLAY_HEIGHT: usize = 32;

/// Longest sprite that can be drawn, in rows.
pub const MAX_SPRITE_ROWS: usize = 15;

/// The framebuffer, row-major, origin at the top left.
pub type Screen = [[bool; DISPLAY_WIDTH]; DISPLAY_HEIGHT];

/// The display.
pub struct Display {
    screen: Screen,
    must_draw: bool,
}

/// What a display is to a contract: its pixels and its pending redraw flag.
pub struct DisplayView {
    /// `pixels[row][column]`, 32 rows of 64.
    pub pixels: Seq<Seq<bool>>,
    /// Set by `clear` and `draw_sprite`, taken by `must_draw`.
    pub must_draw: bool,
}

/// The pixels of a framebuffer as a sequence of rows.
pub open spec fn screen_pixels(screen: Screen) -> Seq<Seq<bool>> {
    Seq::new(DISPLAY_HEIGHT as nat, |r: int| screen@[r]@)
}

/// A picture of the right size.
pub open spec fn well_formed(pixels: Seq<Seq<bool>>) -> bool {
    &&& pixels.len() == DISPLAY_HEIGHT
    &&& forall|r: int| 0 <= r < DISPLAY_HEIGHT ==> (#[trigger] pixels[r]).len() == DISPLAY_WIDTH
}

/// The picture with every pixel off.
pub open spec fn blank() -> Seq<Seq<bool>> {
    Seq::new(DISPLAY_HEIGHT as nat, |r: int| Seq::new(DISPLAY_WIDTH as nat, |c: int| false))
}

/// Whether the sprite is lit at its own `row` and `bit`, bit 0 being the
/// leftmost (most significant) one. Outside the sprite nothing is lit.
pub open spec fn sprite_bit(sprite: Seq<u8>, row: int, bit: int) -> bool {
    &&& 0 <= row < sprite.len()
    &&& 0 <= bit < 8
    &&& sprite[row] & (0x80u8 >> (bit as u8)) != 0
}

/// Whether a sprite drawn at `(x, y)` is lit over the pixel at `row`, `column`.
/// The sprite wraps round both edges of the screen.
pub open spec fn sprite_covers(sprite: Seq<u8>, x: u8, y: u8, row: int, column: int) -> bool {
    sprite_bit(sprite, (row - y) % (DISPLAY_HEIGHT as int), (column - x) % (DISPLAY_WIDTH as int))
}

/// The picture after the sprite is XORed onto it at `(x, y)`.
pub open spec fn draw(pixels: Seq<Seq<bool>>, sprite: Seq<u8>, x: u8, y: u8) -> Seq<Seq<bool>> {
    Seq::new(
        DISPLAY_HEIGHT as nat,
        |r: int|
            Seq::new(
                DISPLAY_WIDTH as nat,
                |c: int| pixels[r][c] != sprite_covers(sprite, x, y, r, c),
            ),
    )
}

/// Whether the sprite drawn at `(x, y)` strikes the lit pixel at `row`, `column`.
pub open spec fn collides_at(
    pixels: Seq<Seq<bool>>,
    sprite: Seq<u8>,
    x: u8,
    y: u8,
    row: int,
    column: int,
) -> bool {
    &&& 0 <= row < DISPLAY_HEIGHT
    &&& 0 <= column < DISPLAY_WIDTH
    &&& pixels[row][column]
    &&& sprite_covers(sprite, x, y, row, column)
}

/// Whether the sprite drawn at `(x, y)` strikes any lit pixel.
pub open spec fn collides(pixels: Seq<Seq<bool>>, sprite: Seq<u8>, x: u8, y: u8) -> bool {
    exists|r: int, c: int| #[trigger] collides_at(pixels, sprite, x, y, r, c)
}

/// Whether the sprite cell over the pixel at `row`, `column` comes before
/// the cell `(rows, bits)` in drawing order, rows first and bits within a
/// row.
spec fn reached(x: u8, y: u8, rows: int, bits: int, row: int, column: int) -> bool {
    let sprite_row = (row - y) % (DISPLAY_HEIGHT as int);
    let sprite_bit = (column - x) % (DISPLAY_WIDTH as int);
    sprite_row < rows || (sprite_row == rows && sprite_bit < bits)
}

/// The framebuffer while a sprite is being drawn: the cells before
/// `(rows, bits)` are on it, the others are not yet.
spec fn drawn_so_far(
    screen: Screen,
    before: Seq<Seq<bool>>,
    sprite: Seq<u8>,
    x: u8,
    y: u8,
    rows: int,
    bits: int,
) -> bool {
    forall|r: int, c: int|
        0 <= r < DISPLAY_HEIGHT && 0 <= c < DISPLAY_WIDTH ==> #[trigger] screen@[r]@[c] == (
        before[r][c] != (sprite_covers(sprite, x, y, r, c) && reached(x, y, rows, bits, r, c)))
}

/// The collision flag while a sprite is being drawn: it is up if one of the
/// cells before `(rows, bits)` struck a lit pixel.
spec fn struck_so_far(
    collision: bool,
    before: Seq<Seq<bool>>,
    sprite: Seq<u8>,
    x: u8,
    y: u8,
    rows: int,
    bits: int,
) -> bool {
    if collision {
        collides(before, sprite, x, y)
    } else {
        forall|r: int, c: int|
            reached(x, y, rows, bits, r, c) ==> !#[trigger] collides_at(before, sprite, x, y, r, c)
    }
}

/// The sprite's cell at `row`, `bit` lands on the pixel `row` below `y` and
/// `bit` right of `x`, both counted round the edges of the screen.
pub proof fn lemma_cell_lands_wrapped(sprite: Seq<u8>, x: u8, y: u8, row: int, bit: int)
    requires
        0 <= row < DISPLAY_HEIGHT,
        0 <= bit < DISPLAY_WIDTH,
    ensures
        sprite_covers(
            sprite,
            x,
            y,
            (y + row) % (DISPLAY_HEIGHT as int),
            (x + bit) % (DISPLAY_WIDTH as int),
        ) == sprite_bit(sprite, row, bit),
{
}

/// Drawing is its own inverse: a sprite drawn twice at the same place leaves
/// the picture as it was, and the second draw strikes exactly the pixels
/// that the first one lit.
pub proof fn lemma_draw_twice_restores(pixels: Seq<Seq<bool>>, sprite: Seq<u8>, x: u8, y: u8)
    requires
        well_formed(pixels),
        sprite.len() <= MAX_SPRITE_ROWS,
    ensures
        draw(draw(pixels, sprite, x, y), sprite, x, y) == pixels,
        forall|r: int, c: int|
            #[trigger] collides_at(draw(pixels, sprite, x, y), sprite, x, y, r, c) <==> (0 <= r
                < DISPLAY_HEIGHT && 0 <= c < DISPLAY_WIDTH && !pixels[r][c] && draw(
                pixels,
                sprite,
                x,
                y,
            )[r][c] && sprite_covers(sprite, x, y, r, c)),
        collides(draw(pixels, sprite, x, y), sprite, x, y) <==> exists|r: int, c: int|
            0 <= r < DISPLAY_HEIGHT && 0 <= c < DISPLAY_WIDTH && !pixels[r][c]
                && #[trigger] sprite_covers(sprite, x, y, r, c),
{
    let once = draw(pixels, sprite, x, y);
    assert(draw(once, sprite, x, y) =~~= pixels);
    if collides(once, sprite, x, y) {
        let (r, c) = choose|r: int, c: int| #[trigger] collides_at(once, sprite, x, y, r, c);
        assert(!pixels[r][c] && sprite_covers(sprite, x, y, r, c));
    }
    if exists|r: int, c: int|
        0 <= r < DISPLAY_HEIGHT && 0 <= c < DISPLAY_WIDTH && !pixels[r][c]
            && #[trigger] sprite_covers(sprite, x, y, r, c) {
        let (r, c) = choose|r: int, c: int|
            0 <= r < DISPLAY_HEIGHT && 0 <= c < DISPLAY_WIDTH && !pixels[r][c]
                && #[trigger] sprite_covers(sprite, x, y, r, c);
        assert(collides_at(once, sprite, x, y, r, c));
    }
}

/// A sprite with no lit bit strikes nothing and changes nothing.
pub proof fn lemma_dark_sprite_is_idle(pixels: Seq<Seq<bool>>, sprite: Seq<u8>, x: u8, y: u8)
    requires
        well_formed(pixels),
        forall|row: int| 0 <= row < sprite.len() ==> sprite[row] == 0,
    ensures
        !collides(pixels, sprite, x, y),
        draw(pixels, sprite, x, y) == pixels,
{
    assert forall|row: int, bit: int| !sprite_bit(sprite, row, bit) by {
        if 0 <= row < sprite.len() && 0 <= bit < 8 {
            let mask = 0x80u8 >> (bit as u8);
            assert(0u8 & mask == 0) by (bit_vector);
        }
    }
    assert(draw(pixels, sprite, x, y) =~~= pixels);
}

impl View for Display {
    type V = DisplayView;

    closed spec fn view(&self) -> DisplayView {
        DisplayView { pixels: screen_pixels(self.screen), must_draw: self.must_draw }
    }
}

impl Default for Display {
    /// A dark screen with nothing to redraw.
    fn default() -> (display: Self)
        ensures
            display@.pixels == blank(),
            !display@.must_draw,
    {
        let display = Display {
            screen: [[false; DISPLAY_WIDTH]; DISPLAY_HEIGHT],
            must_draw: false,
        };
        assert(display@.pixels =~~= blank());
        display
    }
}

impl Display {
    /// Every display holds a picture of the right size.
    pub proof fn lemma_well_formed(&self)
        ensures
            well_formed(self@.pixels),
    {
    }

    /// The framebuffer as it stands.
    pub fn screen(&self) -> (screen: &Screen)
        ensures
            screen_pixels(*screen) == self@.pixels,
    {
        &self.screen
    }

    /// Whether the picture changed since this was last asked. Asking resets
    /// the flag.
    pub fn must_draw(&mut self) -> (pending: bool)
        ensures
            pending == old(self)@.must_draw,
            final(self)@ == (DisplayView { must_draw: false, ..old(self)@ }),
    {
        if self.must_draw {
            self.must_draw = false;
            return true;
        }
        false
    }

    /// Turns every pixel off and asks for a redraw.
    pub fn clear(&mut self)
        ensures
            final(self)@ == (DisplayView { pixels: blank(), must_draw: true }),
    {
        self.screen = [[false; DISPLAY_WIDTH]; DISPLAY_HEIGHT];
        self.must_draw = true;
        assert(self@.pixels =~~= blank());
    }

    /// XORs the sprite onto the screen with its top left corner at `(x, y)`,
    /// wrapping round the edges, and asks for a redraw. Returns whether a
    /// lit bit of the sprite struck a pixel that was lit before.
    pub fn draw_sprite(&mut self, sprite: &[u8], x: u8, y: u8) -> (collision: bool)
        requires
            sprite@.len() <= MAX_SPRITE_ROWS,
        ensures
            collision == collides(old(self)@.pixels, sprite@, x, y),
            final(self)@ == (DisplayView {
                pixels: draw(old(self)@.pixels, sprite@, x, y),
                must_draw: true,
            }),
    {
        let ghost before = self@.pixels;
        let mut collision = false;
        let mut height: usize = 0;
        while height < sprite.len()
            invariant
                height <= sprite@.len() <= MAX_SPRITE_ROWS,
                drawn_so_far(self.screen, before, sprite@, x, y, height as int, 0),
                struck_so_far(collision, before, sprite@, x, y, height as int, 0),
            decreases sprite@.len() - height,
        {
            let byte: u8 = sprite[height];
            let row: usize = (y as usize + height) % DISPLAY_HEIGHT;
            let mut bit: usize = 0;
            while bit < 8
                invariant
                    bit <= 8,
                    height < sprite@.len() <= MAX_SPRITE_ROWS,
                    byte == sprite@[height as int],
                    row == (y + height) % (DISPLAY_HEIGHT as int),
                    drawn_so_far(self.screen, before, sprite@, x, y, height as int, bit as int),
                    struck_so_far(collision, before, sprite@, x, y, height as int, bit as int),
                decreases 8 - bit,
            {
                let column: usize = (x as usize + bit) % DISPLAY_WIDTH;
                let old_pixel: bool = self.screen[row][column];
                let new_pixel: bool = byte & (0x80u8 >> (bit as u8)) != 0;
                proof {
                    assert((row - y) % (DISPLAY_HEIGHT as int) == height);
                    assert((column - x) % (DISPLAY_WIDTH as int) == bit);
                }
                if !collision && old_pixel && new_pixel {
                    collision = true;
                    assert(collides_at(before, sprite@, x, y, row as int, column as int));
                }
                self.screen[row][column] = old_pixel != new_pixel;
                bit += 1;
            }
            height += 1;
        }
        self.must_draw = true;
        assert(self@.pixels =~~= draw(before, sprite@, x, y));
        collision
    }
}

} // verus!
