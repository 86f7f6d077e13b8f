//! The monochrome display: a grid of pixels, packed eight to a byte, on
//! which sprites are composed by exclusive-or with wraparound.

use vstd::prelude::*;

verus! {

/// Number of bytes in a built-in glyph.
pub const SPRITE_LEN: usize = 5;

/// A sprite: one byte for each of its rows, the leftmost pixel in the
/// highest bit.
pub type SpriteValue = Vec<u8>;

/// The glyphs of the hexadecimal digits `0` to `F`.
pub const BUILT_IN_SPRITES: [[u8; SPRITE_LEN]; 16] = [
    [0xF0, 0x90, 0x90, 0x90, 0xF0],
    [0x20, 0x60, 0x20, 0x20, 0x70],
    [0xF0, 0x10, 0xF0, 0x80, 0xF0],
    [0xF0, 0x10, 0xF0, 0x10, 0xF0],
    [0x90, 0x90, 0xF0, 0x10, 0x10],
    [0xF0, 0x80, 0xF0, 0x10, 0xF0],
    [0xF0, 0x80, 0xF0, 0x90, 0xF0],
    [0xF0, 0x10, 0x20, 0x40, 0x40],
    [0xF0, 0x90, 0xF0, 0x90, 0xF0],
    [0xF0, 0x90, 0xF0, 0x10, 0xF0],
    [0xF0, 0x90, 0xF0, 0x90, 0x90],
    [0xE0, 0x90, 0xE0, 0x90, 0xE0],
    [0xF0, 0x80, 0x80, 0x80, 0xF0],
    [0xE0, 0x90, 0x90, 0x90, 0xE0],
    [0xF0, 0x80, 0xF0, 0x80, 0xF0],
    [0xF0, 0x80, 0xF0, 0x80, 0x80],
];

/// Where the first glyph lies in memory.
pub const SPRITE_START_ADDRESS: usize = 0x0;

/// Pixels in a row.
pub const DISPLAY_WIDTH: usize = 128;

/// Rows of pixels.
pub const DISPLAY_HEIGHT: usize = 64;

/// Greatest number of rows in a sprite.
pub const MAX_SPRITE_ROWS: usize = 15;

/// Bytes in a packed row of pixels.
pub const BUFFER_WIDTH: usize = DISPLAY_WIDTH / 8;

/// Packed rows in the buffer.
pub const BUFFER_HEIGHT: usize = DISPLAY_HEIGHT;

#[derive(Debug, PartialEq, Eq, Structural, Clone, Copy)]
pub enum DisplayError {
    /// There is no glyph for this digit.
    InvalidSprite(u8),
}

/// The view of a display is its grid of pixels: `DISPLAY_HEIGHT` rows of
/// `DISPLAY_WIDTH` pixels, `true` where a pixel is lit.
#[derive(Debug)]
pub struct Display {
    pub width: usize,
    pub height: usize,
    /// The pixels, row by row, eight to a byte, the leftmost in the highest bit.
    pub buffer: [[u8; BUFFER_WIDTH]; BUFFER_HEIGHT],
}

/// Whether pixel `bit` of a packed byte is lit, counting from the left.
pub open spec fn bit_at(byte: u8, bit: int) -> bool {
    0 <= bit < 8 && byte & (0x80u8 >> (bit as u8)) != 0
}

/// A grid with no pixel lit.
pub open spec fn blank() -> Seq<Seq<bool>> {
    Seq::new(DISPLAY_HEIGHT as nat, |y: int| Seq::new(DISPLAY_WIDTH as nat, |x: int| false))
}

/// Whether `current` has lost a bit that `original` had.
pub open spec fn lost_bit(original: u8, current: u8) -> bool {
    original & !current != 0
}

/// Whether a sprite row drawn from column `col` has a set bit on pixel
/// column `x`: bit `j` of the row lands on column `(col + j) mod DISPLAY_WIDTH`.
pub open spec fn row_bit(value: u8, col: int, x: int) -> bool {
    bit_at(value, (x - col) % (DISPLAY_WIDTH as int))
}

/// Whether a sprite drawn at (`row`, `col`) has a set bit on pixel
/// (`y`, `x`): row `i` of the sprite lands on pixel row
/// `(row + i) mod DISPLAY_HEIGHT`.
pub open spec fn sprite_bit(sprite: Seq<u8>, row: int, col: int, y: int, x: int) -> bool {
    let i = (y - row) % (DISPLAY_HEIGHT as int);
    i < sprite.len() && row_bit(sprite[i], col, x)
}

/// The grid after a sprite is drawn at (`row`, `col`): every pixel under a
/// set bit of the sprite is flipped, and no other.
pub open spec fn drawn(pixels: Seq<Seq<bool>>, row: int, col: int, sprite: Seq<u8>) -> Seq<
    Seq<bool>,
> {
    Seq::new(
        DISPLAY_HEIGHT as nat,
        |y: int|
            Seq::new(
                DISPLAY_WIDTH as nat,
                |x: int| pixels[y][x] != sprite_bit(sprite, row, col, y, x),
            ),
    )
}

/// Whether pixel (`y`, `x`) is lit and lies under a set bit of the sprite,
/// so that drawing the sprite turns it dark.
pub open spec fn erased_at(
    pixels: Seq<Seq<bool>>,
    row: int,
    col: int,
    sprite: Seq<u8>,
    y: int,
    x: int,
) -> bool {
    &&& 0 <= y < DISPLAY_HEIGHT
    &&& 0 <= x < DISPLAY_WIDTH
    &&& pixels[y][x]
    &&& sprite_bit(sprite, row, col, y, x)
}

/// Whether drawing the sprite at (`row`, `col`) turns any lit pixel dark.
pub open spec fn erases(pixels: Seq<Seq<bool>>, row: int, col: int, sprite: Seq<u8>) -> bool {
    exists|y: int, x: int| #[trigger] erased_at(pixels, row, col, sprite, y, x)
}

/// The byte that drawing one sprite row from column `col` combines into
/// byte `index` of the pixel row.
spec fn row_mask(value: u8, col: int, index: int) -> u8 {
    let start = col % (DISPLAY_WIDTH as int);
    let shift = (start % 8) as u8;
    if index == start / 8 {
        value >> shift
    } else if shift != 0 && index == (start / 8 + 1) % (BUFFER_WIDTH as int) {
        value << ((8 - shift) as u8)
    } else {
        0
    }
}

/// Whether `pixels` has the shape of a display: `DISPLAY_HEIGHT` rows of
/// `DISPLAY_WIDTH` pixels.
pub open spec fn is_grid(pixels: Seq<Seq<bool>>) -> bool {
    &&& pixels.len() == DISPLAY_HEIGHT
    &&& forall|y: int| 0 <= y < DISPLAY_HEIGHT ==> (#[trigger] pixels[y]).len() == DISPLAY_WIDTH
}

/// Whether pixel (`y`, `x`) lies under a set bit of the sprite.
pub open spec fn covered_at(sprite: Seq<u8>, row: int, col: int, y: int, x: int) -> bool {
    &&& 0 <= y < DISPLAY_HEIGHT
    &&& 0 <= x < DISPLAY_WIDTH
    &&& sprite_bit(sprite, row, col, y, x)
}

/// Whether pixel (`y`, `x`) is dark and lies under a set bit of the
/// sprite, so that drawing the sprite lights it.
pub open spec fn lit_at(
    pixels: Seq<Seq<bool>>,
    row: int,
    col: int,
    sprite: Seq<u8>,
    y: int,
    x: int,
) -> bool {
    covered_at(sprite, row, col, y, x) && !pixels[y][x]
}

/// Whether drawing the sprite at (`row`, `col`) lights any dark pixel.
pub open spec fn lights(pixels: Seq<Seq<bool>>, row: int, col: int, sprite: Seq<u8>) -> bool {
    exists|y: int, x: int| #[trigger] lit_at(pixels, row, col, sprite, y, x)
}

/// Whether two sprites, each at its place, have no pixel in common.
pub open spec fn apart(
    first: Seq<u8>,
    first_row: int,
    first_col: int,
    second: Seq<u8>,
    second_row: int,
    second_col: int,
) -> bool {
    forall|y: int, x: int|
        !(#[trigger] covered_at(first, first_row, first_col, y, x) && covered_at(
            second,
            second_row,
            second_col,
            y,
            x,
        ))
}

/// The pixels that a packed buffer holds.
pub open spec fn grid(buffer: [[u8; BUFFER_WIDTH]; BUFFER_HEIGHT]) -> Seq<Seq<bool>> {
    Seq::new(
        DISPLAY_HEIGHT as nat,
        |y: int| Seq::new(DISPLAY_WIDTH as nat, |x: int| bit_at(buffer@[y]@[x / 8], x % 8)),
    )
}

impl View for Display {
    type V = Seq<Seq<bool>>;

    open spec fn view(&self) -> Seq<Seq<bool>> {
        grid(self.buffer)
    }
}

impl Display {
    /// A display of `DISPLAY_WIDTH` by `DISPLAY_HEIGHT` pixels, all dark.
    pub fn new() -> (display: Display)
        ensures
            display.width == DISPLAY_WIDTH,
            display.height == DISPLAY_HEIGHT,
            display@ == blank(),
    {
        let display = Display {
            width: DISPLAY_WIDTH,
            height: DISPLAY_HEIGHT,
            buffer: [[0; BUFFER_WIDTH]; BUFFER_HEIGHT],
        };
        proof {
            lemma_zero_is_dark();
            assert(display@ =~~= blank());
        }
        display
    }

    /// The memory address of the glyph of a hexadecimal digit.
    pub fn get_sprite_address(sprite: u8) -> (res: Result<usize, DisplayError>)
        ensures
            res == if sprite < 16 {
                Ok::<usize, DisplayError>((SPRITE_START_ADDRESS + sprite * SPRITE_LEN) as usize)
            } else {
                Err::<usize, DisplayError>(DisplayError::InvalidSprite(sprite))
            },
    {
        if sprite as usize >= BUILT_IN_SPRITES.len() {
            Err(DisplayError::InvalidSprite(sprite))
        } else {
            Ok(SPRITE_START_ADDRESS + (sprite as usize * SPRITE_LEN))
        }
    }

    /// Turns every pixel dark.
    pub fn clear(&mut self)
        ensures
            final(self)@ == blank(),
            final(self).width == old(self).width,
            final(self).height == old(self).height,
    {
        self.buffer = [[0; BUFFER_WIDTH]; BUFFER_HEIGHT];
        proof {
            lemma_zero_is_dark();
            assert(self@ =~~= blank());
        }
    }

    /// Draws one sprite row on pixel row `row`, starting at pixel column
    /// `col`, both taken modulo the size of the display. Reports whether a
    /// lit pixel went dark.
    pub fn draw_sprite_row(&mut self, row: usize, col: usize, value: u8) -> (erased: bool)
        ensures
            final(self)@ == drawn(old(self)@, row as int, col as int, seq![value]),
            erased == erases(old(self)@, row as int, col as int, seq![value]),
            final(self).width == old(self).width,
            final(self).height == old(self).height,
    {
        let row_idx = row % BUFFER_HEIGHT;
        let start = col % DISPLAY_WIDTH;
        let col_idx = start / 8;
        let shift = (start % 8) as u8;

        let first = value >> shift;
        let original = self.buffer[row_idx][col_idx];
        self.buffer[row_idx][col_idx] ^= first;
        let mut erased = bit_erased(original, self.buffer[row_idx][col_idx]);
        let ghost next = (col_idx + 1) % BUFFER_WIDTH as int;

        if shift != 0 {
            let second = value << (8 - shift);
            let next_idx = (col_idx + 1) % BUFFER_WIDTH;
            let original = self.buffer[row_idx][next_idx];
            self.buffer[row_idx][next_idx] ^= second;
            if !erased {
                erased = bit_erased(original, self.buffer[row_idx][next_idx]);
            }
        }
        proof {
            let before = old(self).buffer;
            let after = self.buffer;
            let target = row_idx as int;
            assert forall|index: int| 0 <= index < BUFFER_WIDTH implies #[trigger] after@[target]@[index]
                == before@[target]@[index] ^ row_mask(value, col as int, index) by {
                let byte = before@[target]@[index];
                assert(byte ^ 0 == byte) by (bit_vector);
            }
            lemma_row_drawn(before, after, row as int, col as int, value);
            lemma_row_erases(before, after, row as int, col as int, value);
            if shift == 0 {
                let byte = before@[target]@[next];
                lemma_lost_bit_of_xor(byte, 0);
                assert(byte & 0 == 0) by (bit_vector);
            }
        }
        erased
    }

    /// Draws `sprite_value` with its top left pixel at (`row`, `col`),
    /// wrapping around the right and bottom edges. Reports whether any lit
    /// pixel went dark.
    pub fn draw_sprite(&mut self, row: usize, col: usize, sprite_value: &SpriteValue) -> (erased:
        bool)
        requires
            sprite_value@.len() <= MAX_SPRITE_ROWS,
        ensures
            final(self)@ == drawn(old(self)@, row as int, col as int, sprite_value@),
            erased == erases(old(self)@, row as int, col as int, sprite_value@),
            final(self).width == old(self).width,
            final(self).height == old(self).height,
    {
        let mut erased = false;
        let top = row % BUFFER_HEIGHT;
        let mut row_delta: usize = 0;
        proof {
            assert(self@ =~~= drawn(old(self)@, row as int, col as int, sprite_value@.take(0)));
        }
        while row_delta < sprite_value.len()
            invariant
                row_delta <= sprite_value@.len() <= MAX_SPRITE_ROWS,
                top == row % BUFFER_HEIGHT,
                self@ == drawn(
                    old(self)@,
                    row as int,
                    col as int,
                    sprite_value@.take(row_delta as int),
                ),
                erased == erases(
                    old(self)@,
                    row as int,
                    col as int,
                    sprite_value@.take(row_delta as int),
                ),
                self.width == old(self).width,
                self.height == old(self).height,
            decreases sprite_value@.len() - row_delta,
        {
            let ghost before = self@;
            let ghost done = sprite_value@.take(row_delta as int);
            let ghost more = sprite_value@.take(row_delta + 1);
            let sprite_row = sprite_value[row_delta];
            let target = (top + row_delta) % BUFFER_HEIGHT;
            let row_erased = self.draw_sprite_row(target, col, sprite_row);
            erased = erased || row_erased;
            proof {
                let one = seq![sprite_row];
                let origin = old(self)@;
                assert forall|y: int, x: int|
                    0 <= y < DISPLAY_HEIGHT && 0 <= x < DISPLAY_WIDTH implies (sprite_bit(
                    more,
                    row as int,
                    col as int,
                    y,
                    x,
                ) == (sprite_bit(done, row as int, col as int, y, x) != sprite_bit(
                    one,
                    target as int,
                    col as int,
                    y,
                    x,
                ))) && !(sprite_bit(done, row as int, col as int, y, x) && sprite_bit(
                    one,
                    target as int,
                    col as int,
                    y,
                    x,
                )) by {
                    lemma_next_row(sprite_value@, row_delta as int, row as int, col as int, y, x);
                }
                assert(self@ =~~= drawn(origin, row as int, col as int, more));
                if erases(origin, row as int, col as int, done) {
                    let (y, x) = choose|y: int, x: int| #[trigger]
                        erased_at(origin, row as int, col as int, done, y, x);
                    assert(erased_at(origin, row as int, col as int, more, y, x));
                }
                if erases(before, target as int, col as int, one) {
                    let (y, x) = choose|y: int, x: int| #[trigger]
                        erased_at(before, target as int, col as int, one, y, x);
                    assert(erased_at(origin, row as int, col as int, more, y, x));
                }
                if erases(origin, row as int, col as int, more) {
                    let (y, x) = choose|y: int, x: int| #[trigger]
                        erased_at(origin, row as int, col as int, more, y, x);
                    if sprite_bit(done, row as int, col as int, y, x) {
                        assert(erased_at(origin, row as int, col as int, done, y, x));
                    } else {
                        assert(erased_at(before, target as int, col as int, one, y, x));
                    }
                }
            }
            row_delta += 1;
        }
        proof {
            assert(sprite_value@.take(row_delta as int) =~= sprite_value@);
        }
        erased
    }

    /// Whether the pixel at (`row`, `col`) is lit. Coordinates beyond the
    /// edges wrap around.
    pub fn get_pixel(&self, row: usize, col: usize) -> (lit: bool)
        ensures
            lit == self@[row as int % DISPLAY_HEIGHT as int][col as int % DISPLAY_WIDTH as int],
    {
        let x = col % DISPLAY_WIDTH;
        let byte = self.buffer[row % BUFFER_HEIGHT][x / 8];
        let bit = (x % 8) as u8;
        byte & (0x80u8 >> bit) != 0
    }
}

/// Reports whether any bit set in `original` is unset in `current`.
pub fn bit_erased(original: u8, current: u8) -> (erased: bool)
    ensures
        erased == lost_bit(original, current),
{
    let mut bit_idx: u8 = 0;
    assert((original & !current) as u16 & (0x00FFu16 >> 8u16) == 0) by (bit_vector);
    while bit_idx < 8
        invariant
            bit_idx <= 8,
            (original & !current) as u16 & (0x00FFu16 >> ((8 - bit_idx) as u16)) == 0,
        decreases 8 - bit_idx,
    {
        let was = original & (0x1u8 << bit_idx) != 0;
        let now = current & (0x1u8 << bit_idx) != 0;
        if was && !now {
            assert(original & !current != 0) by (bit_vector)
                requires
                    bit_idx < 8,
                    original & (0x1u8 << bit_idx) != 0,
                    current & (0x1u8 << bit_idx) == 0,
            ;
            return true;
        }
        let ghost rest = (8 - bit_idx) as u16;
        assert((original & !current) as u16 & (0x00FFu16 >> ((rest - 1) as u16)) == 0)
            by (bit_vector)
            requires
                bit_idx < 8,
                rest == 8 - bit_idx,
                (original & !current) as u16 & (0x00FFu16 >> rest) == 0,
                !(original & (0x1u8 << bit_idx) != 0 && current & (0x1u8 << bit_idx) == 0),
        ;
        bit_idx += 1;
    }
    assert(original & !current == 0) by (bit_vector)
        requires
            (original & !current) as u16 & (0x00FFu16 >> 0u16) == 0,
    ;
    false
}

/// Drawing always leaves a grid of the display's shape.
pub proof fn lemma_drawn_is_grid(pixels: Seq<Seq<bool>>, row: int, col: int, sprite: Seq<u8>)
    ensures
        is_grid(drawn(pixels, row, col, sprite)),
        is_grid(blank()),
{
}

/// No set bit is lost at the edges: bit `j` of row `i` of a sprite lands
/// on the pixel `i` rows below and `j` columns right of the sprite's
/// place, going around the edges, and lights it on a dark display.
pub proof fn lemma_set_bit_lands(sprite: Seq<u8>, row: int, col: int, i: int, j: int)
    requires
        0 <= i < sprite.len() <= DISPLAY_HEIGHT,
        bit_at(sprite[i], j),
    ensures
        covered_at(
            sprite,
            row,
            col,
            (row + i) % (DISPLAY_HEIGHT as int),
            (col + j) % (DISPLAY_WIDTH as int),
        ),
        drawn(blank(), row, col, sprite)[(row + i) % (DISPLAY_HEIGHT as int)][(col + j) % (
        DISPLAY_WIDTH as int)],
{
    let y = (row + i) % (DISPLAY_HEIGHT as int);
    let x = (col + j) % (DISPLAY_WIDTH as int);
    lemma_wrapped_distance(row, y, DISPLAY_HEIGHT as int);
    lemma_wrapped_distance(col, x, DISPLAY_WIDTH as int);
    assert((y - row) % (DISPLAY_HEIGHT as int) == i);
    assert((x - col) % (DISPLAY_WIDTH as int) == j);
}

/// No pixel is lit without a bit: a pixel that a sprite covers lies
/// under bit `j` of row `i` of it, which is set and lands there.
pub proof fn lemma_covered_pixel_has_its_bit(sprite: Seq<u8>, row: int, col: int, y: int, x: int)
    requires
        covered_at(sprite, row, col, y, x),
    ensures
        ({
            let i = (y - row) % (DISPLAY_HEIGHT as int);
            let j = (x - col) % (DISPLAY_WIDTH as int);
            &&& 0 <= i < sprite.len()
            &&& 0 <= j < 8
            &&& bit_at(sprite[i], j)
            &&& (row + i) % (DISPLAY_HEIGHT as int) == y
            &&& (col + j) % (DISPLAY_WIDTH as int) == x
        }),
{
    lemma_wrapped_distance(row, y, DISPLAY_HEIGHT as int);
    lemma_wrapped_distance(col, x, DISPLAY_WIDTH as int);
}

/// No two bits land on one pixel: the place where bit `j` of row `i`
/// lands tells `i` and `j`.
pub proof fn lemma_bits_land_apart(row: int, col: int, i: int, j: int)
    requires
        0 <= i < DISPLAY_HEIGHT,
        0 <= j < DISPLAY_WIDTH,
    ensures
        ((row + i) % (DISPLAY_HEIGHT as int) - row) % (DISPLAY_HEIGHT as int) == i,
        ((col + j) % (DISPLAY_WIDTH as int) - col) % (DISPLAY_WIDTH as int) == j,
{
    let y = (row + i) % (DISPLAY_HEIGHT as int);
    let x = (col + j) % (DISPLAY_WIDTH as int);
    lemma_wrapped_distance(row, y, DISPLAY_HEIGHT as int);
    lemma_wrapped_distance(col, x, DISPLAY_WIDTH as int);
}

/// Drawing the same sprite twice at the same place restores every pixel.
pub proof fn lemma_draw_twice_restores(pixels: Seq<Seq<bool>>, row: int, col: int, sprite: Seq<u8>)
    requires
        is_grid(pixels),
    ensures
        drawn(drawn(pixels, row, col, sprite), row, col, sprite) == pixels,
{
    let once = drawn(pixels, row, col, sprite);
    let twice = drawn(once, row, col, sprite);
    assert forall|y: int| 0 <= y < DISPLAY_HEIGHT implies #[trigger] twice[y] =~= pixels[y] by {
        assert forall|x: int| 0 <= x < DISPLAY_WIDTH implies twice[y][x] == pixels[y][x] by {
            assert(once[y][x] == (pixels[y][x] != sprite_bit(sprite, row, col, y, x)));
        }
    }
    assert(twice =~= pixels);
}

/// The second of two draws of the same sprite at the same place reports
/// an erasure exactly when the first lit a pixel. So it does whenever the
/// sprite, drawn on a dark display, has any bit set.
pub proof fn lemma_redraw_erases_what_was_lit(
    pixels: Seq<Seq<bool>>,
    row: int,
    col: int,
    sprite: Seq<u8>,
)
    ensures
        erases(drawn(pixels, row, col, sprite), row, col, sprite) == lights(
            pixels,
            row,
            col,
            sprite,
        ),
{
    let once = drawn(pixels, row, col, sprite);
    if erases(once, row, col, sprite) {
        let (y, x) = choose|y: int, x: int| #[trigger] erased_at(once, row, col, sprite, y, x);
        assert(lit_at(pixels, row, col, sprite, y, x));
    }
    if lights(pixels, row, col, sprite) {
        let (y, x) = choose|y: int, x: int| #[trigger] lit_at(pixels, row, col, sprite, y, x);
        assert(erased_at(once, row, col, sprite, y, x));
    }
}

/// Nothing can be erased from a dark display.
pub proof fn lemma_blank_never_erases(row: int, col: int, sprite: Seq<u8>)
    ensures
        !erases(blank(), row, col, sprite),
{
    assert forall|y: int, x: int| !#[trigger] erased_at(blank(), row, col, sprite, y, x) by {}
}

/// A sprite drawn apart from an earlier one erases exactly what it would
/// have erased without the earlier one. On a dark display, then, the
/// second of two sprites that lie apart erases nothing.
pub proof fn lemma_apart_sprites_do_not_erase(
    pixels: Seq<Seq<bool>>,
    first: Seq<u8>,
    first_row: int,
    first_col: int,
    second: Seq<u8>,
    second_row: int,
    second_col: int,
)
    requires
        apart(first, first_row, first_col, second, second_row, second_col),
    ensures
        erases(drawn(pixels, first_row, first_col, first), second_row, second_col, second)
            == erases(pixels, second_row, second_col, second),
        pixels == blank() ==> !erases(
            drawn(pixels, first_row, first_col, first),
            second_row,
            second_col,
            second,
        ),
{
    let once = drawn(pixels, first_row, first_col, first);
    if erases(once, second_row, second_col, second) {
        let (y, x) = choose|y: int, x: int| #[trigger]
            erased_at(once, second_row, second_col, second, y, x);
        assert(covered_at(second, second_row, second_col, y, x));
        assert(!covered_at(first, first_row, first_col, y, x));
        assert(erased_at(pixels, second_row, second_col, second, y, x));
    }
    if erases(pixels, second_row, second_col, second) {
        let (y, x) = choose|y: int, x: int| #[trigger]
            erased_at(pixels, second_row, second_col, second, y, x);
        assert(covered_at(second, second_row, second_col, y, x));
        assert(!covered_at(first, first_row, first_col, y, x));
        assert(erased_at(once, second_row, second_col, second, y, x));
    }
    lemma_blank_never_erases(second_row, second_col, second);
}

/// The pixel grid determines the packed buffer: two buffers that show the
/// same pixels hold the same bytes.
pub proof fn lemma_grid_determines_buffer(one: [[u8; BUFFER_WIDTH]; BUFFER_HEIGHT], other: [[u8; BUFFER_WIDTH]; BUFFER_HEIGHT])
    requires
        grid(one) == grid(other),
    ensures
        one == other,
{
    assert forall|y: int| 0 <= y < BUFFER_HEIGHT implies one@[y] == other@[y] by {
        assert forall|index: int| 0 <= index < BUFFER_WIDTH implies one@[y]@[index]
            == other@[y]@[index] by {
            let a = one@[y]@[index];
            let b = other@[y]@[index];
            assert forall|bit: u8| bit < 8 implies (a & (0x80u8 >> bit) != 0) == (b & (0x80u8
                >> bit) != 0) by {
                let x = index * 8 + bit;
                assert(x / 8 == index && x % 8 == bit);
                assert(grid(one)[y][x] == bit_at(a, bit as int));
                assert(grid(other)[y][x] == bit_at(b, bit as int));
            }
            lemma_same_bits(a, b);
        }
        assert(one@[y] =~= other@[y]);
    }
    assert(one =~= other);
}

/// Two bytes that agree on each of their eight pixels are equal.
proof fn lemma_same_bits(a: u8, b: u8)
    requires
        forall|bit: u8| bit < 8 ==> (a & (0x80u8 >> bit) != 0) == (b & (0x80u8 >> bit) != 0),
    ensures
        a == b,
{
    assert((a & (0x80u8 >> 0u8) != 0) == (b & (0x80u8 >> 0u8) != 0));
    assert((a & (0x80u8 >> 1u8) != 0) == (b & (0x80u8 >> 1u8) != 0));
    assert((a & (0x80u8 >> 2u8) != 0) == (b & (0x80u8 >> 2u8) != 0));
    assert((a & (0x80u8 >> 3u8) != 0) == (b & (0x80u8 >> 3u8) != 0));
    assert((a & (0x80u8 >> 4u8) != 0) == (b & (0x80u8 >> 4u8) != 0));
    assert((a & (0x80u8 >> 5u8) != 0) == (b & (0x80u8 >> 5u8) != 0));
    assert((a & (0x80u8 >> 6u8) != 0) == (b & (0x80u8 >> 6u8) != 0));
    assert((a & (0x80u8 >> 7u8) != 0) == (b & (0x80u8 >> 7u8) != 0));
    assert(a == b) by (bit_vector)
        requires
            (a & (0x80u8 >> 0u8) != 0) == (b & (0x80u8 >> 0u8) != 0),
            (a & (0x80u8 >> 1u8) != 0) == (b & (0x80u8 >> 1u8) != 0),
            (a & (0x80u8 >> 2u8) != 0) == (b & (0x80u8 >> 2u8) != 0),
            (a & (0x80u8 >> 3u8) != 0) == (b & (0x80u8 >> 3u8) != 0),
            (a & (0x80u8 >> 4u8) != 0) == (b & (0x80u8 >> 4u8) != 0),
            (a & (0x80u8 >> 5u8) != 0) == (b & (0x80u8 >> 5u8) != 0),
            (a & (0x80u8 >> 6u8) != 0) == (b & (0x80u8 >> 6u8) != 0),
            (a & (0x80u8 >> 7u8) != 0) == (b & (0x80u8 >> 7u8) != 0),
    ;
}

/// No pixel of a zero byte is lit.
proof fn lemma_zero_is_dark()
    ensures
        forall|bit: int| !#[trigger] bit_at(0u8, bit),
{
    assert forall|bit: int| !#[trigger] bit_at(0u8, bit) by {
        let k = bit as u8;
        assert(0u8 & (0x80u8 >> k) == 0) by (bit_vector);
    }
}

/// A pixel of an exclusive-or is lit where exactly one operand's is.
proof fn lemma_xor_bit(a: u8, m: u8, bit: u8)
    requires
        bit < 8,
    ensures
        bit_at(a ^ m, bit as int) == (bit_at(a, bit as int) != bit_at(m, bit as int)),
{
    assert(((a ^ m) & (0x80u8 >> bit) != 0) == ((a & (0x80u8 >> bit) != 0) != (m & (0x80u8 >> bit)
        != 0))) by (bit_vector)
        requires
            bit < 8,
    ;
}

/// Two bytes with a common lit pixel have a common bit.
proof fn lemma_bits_meet(a: u8, m: u8, bit: u8)
    requires
        bit_at(a, bit as int),
        bit_at(m, bit as int),
    ensures
        a & m != 0,
{
    assert(a & m != 0) by (bit_vector)
        requires
            bit < 8,
            a & (0x80u8 >> bit) != 0,
            m & (0x80u8 >> bit) != 0,
    ;
}

/// Two bytes with a common bit have a common lit pixel.
proof fn lemma_common_bit(a: u8, m: u8) -> (bit: int)
    requires
        a & m != 0,
    ensures
        bit_at(a, bit),
        bit_at(m, bit),
{
    let both = a & m;
    assert(both != 0 ==> both & (0x80u8 >> 0u8) != 0 || both & (0x80u8 >> 1u8) != 0 || both & (
    0x80u8 >> 2u8) != 0 || both & (0x80u8 >> 3u8) != 0 || both & (0x80u8 >> 4u8) != 0 || both & (
    0x80u8 >> 5u8) != 0 || both & (0x80u8 >> 6u8) != 0 || both & (0x80u8 >> 7u8) != 0)
        by (bit_vector);
    let bit: u8 = if both & (0x80u8 >> 0u8) != 0 {
        0
    } else if both & (0x80u8 >> 1u8) != 0 {
        1
    } else if both & (0x80u8 >> 2u8) != 0 {
        2
    } else if both & (0x80u8 >> 3u8) != 0 {
        3
    } else if both & (0x80u8 >> 4u8) != 0 {
        4
    } else if both & (0x80u8 >> 5u8) != 0 {
        5
    } else if both & (0x80u8 >> 6u8) != 0 {
        6
    } else {
        7
    };
    assert(a & (0x80u8 >> bit) != 0 && m & (0x80u8 >> bit) != 0) by (bit_vector)
        requires
            bit < 8,
            (a & m) & (0x80u8 >> bit) != 0,
    ;
    bit as int
}

/// Combining a byte into another loses a bit exactly where the two have
/// a bit in common.
proof fn lemma_lost_bit_of_xor(a: u8, m: u8)
    ensures
        lost_bit(a, a ^ m) == (a & m != 0),
{
    assert(a & !(a ^ m) == a & m) by (bit_vector);
}

/// The pixels of a sprite row shifted right within its first byte.
proof fn lemma_shifted_right(value: u8, shift: u8, bit: u8)
    requires
        shift < 8,
        bit < 8,
    ensures
        bit_at(value >> shift, bit as int) == (bit >= shift && bit_at(value, bit - shift)),
{
    if bit >= shift {
        let from = (bit - shift) as u8;
        assert(((value >> shift) & (0x80u8 >> bit) != 0) == (value & (0x80u8 >> from) != 0))
            by (bit_vector)
            requires
                shift < 8,
                bit < 8,
                from + shift == bit,
        ;
    } else {
        assert((value >> shift) & (0x80u8 >> bit) == 0) by (bit_vector)
            requires
                bit < shift < 8,
        ;
    }
}

/// The pixels of a sprite row that spill into its second byte.
proof fn lemma_shifted_left(value: u8, shift: u8, bit: u8)
    requires
        0 < shift < 8,
        bit < 8,
    ensures
        bit_at(value << ((8 - shift) as u8), bit as int) == (bit < shift && bit_at(
            value,
            bit + 8 - shift,
        )),
{
    let by = (8 - shift) as u8;
    if bit < shift {
        let from = (bit + 8 - shift) as u8;
        assert(((value << by) & (0x80u8 >> bit) != 0) == (value & (0x80u8 >> from) != 0))
            by (bit_vector)
            requires
                0 < shift < 8,
                bit < shift,
                by + shift == 8,
                from == bit + by,
        ;
    } else {
        assert((value << by) & (0x80u8 >> bit) == 0) by (bit_vector)
            requires
                0 < shift < 8,
                shift <= bit < 8,
                by + shift == 8,
        ;
    }
}

/// How far to the right of `origin` a coordinate `at` lies, going around
/// an axis of length `size`.
proof fn lemma_wrapped_distance(origin: int, at: int, size: int)
    requires
        size == 64 || size == 128,
        0 <= at < size,
    ensures
        (at - origin) % size == if at >= origin % size {
            at - origin % size
        } else {
            at - origin % size + size
        },
{
}

/// The combined bytes hold exactly the bits of the sprite row, each on the
/// pixel column where it lands.
proof fn lemma_row_mask_bit(value: u8, col: int, x: int)
    requires
        0 <= x < DISPLAY_WIDTH,
    ensures
        bit_at(row_mask(value, col, x / 8), x % 8) == row_bit(value, col, x),
{
    let start = col % (DISPLAY_WIDTH as int);
    let first = start / 8;
    let shift = (start % 8) as u8;
    let index = x / 8;
    let bit = (x % 8) as u8;
    let landed = (x - col) % (DISPLAY_WIDTH as int);
    lemma_wrapped_distance(col, x, DISPLAY_WIDTH as int);
    assert(start == 8 * first + shift);
    assert(x == 8 * index + bit);
    if index == first {
        lemma_shifted_right(value, shift, bit);
        assert(landed == if bit >= shift {
            bit - shift
        } else {
            bit - shift + 128
        });
    } else if shift != 0 && index == (first + 1) % (BUFFER_WIDTH as int) {
        lemma_shifted_left(value, shift, bit);
        assert(landed == bit + 8 - shift) by {
            if first == 15 {
                assert(index == 0);
            } else {
                assert(index == first + 1);
            }
        }
    } else {
        lemma_zero_is_dark();
        assert(landed >= 8) by {
            if first == 15 {
                assert(index != 0 || shift == 0);
            } else {
                assert(index != first + 1 || shift == 0);
            }
        }
    }
}

/// Whether `after` is `before` with one sprite row combined into pixel
/// row `row mod DISPLAY_HEIGHT`.
spec fn row_combined(
    before: [[u8; BUFFER_WIDTH]; BUFFER_HEIGHT],
    after: [[u8; BUFFER_WIDTH]; BUFFER_HEIGHT],
    row: int,
    col: int,
    value: u8,
) -> bool {
    let target = row % (DISPLAY_HEIGHT as int);
    &&& forall|y: int| 0 <= y < DISPLAY_HEIGHT && y != target ==> after@[y] == before@[y]
    &&& forall|index: int|
        0 <= index < BUFFER_WIDTH ==> #[trigger] after@[target]@[index] == before@[target]@[index]
            ^ row_mask(value, col, index)
}

/// Combining the bytes of a sprite row draws the row.
proof fn lemma_row_drawn(
    before: [[u8; BUFFER_WIDTH]; BUFFER_HEIGHT],
    after: [[u8; BUFFER_WIDTH]; BUFFER_HEIGHT],
    row: int,
    col: int,
    value: u8,
)
    requires
        row_combined(before, after, row, col, value),
    ensures
        grid(after) == drawn(grid(before), row, col, seq![value]),
{
    let target = row % (DISPLAY_HEIGHT as int);
    let sprite = seq![value];
    assert forall|y: int, x: int| 0 <= y < DISPLAY_HEIGHT && 0 <= x < DISPLAY_WIDTH implies (
    #[trigger] grid(after)[y][x]) == (grid(before)[y][x] != sprite_bit(sprite, row, col, y, x)) by {
        lemma_wrapped_distance(row, y, DISPLAY_HEIGHT as int);
        if y == target {
            let index = x / 8;
            assert(0 <= index < BUFFER_WIDTH);
            lemma_row_mask_bit(value, col, x);
            lemma_xor_bit(before@[y]@[index], row_mask(value, col, index), (x % 8) as u8);
        }
    }
    assert(grid(after) =~~= drawn(grid(before), row, col, sprite));
}

/// A sprite row turns a lit pixel dark exactly when one of the two bytes
/// it reaches loses a bit.
proof fn lemma_row_erases(
    before: [[u8; BUFFER_WIDTH]; BUFFER_HEIGHT],
    after: [[u8; BUFFER_WIDTH]; BUFFER_HEIGHT],
    row: int,
    col: int,
    value: u8,
)
    requires
        row_combined(before, after, row, col, value),
    ensures
        ({
            let target = row % (DISPLAY_HEIGHT as int);
            let first = (col % (DISPLAY_WIDTH as int)) / 8;
            let next = (first + 1) % (BUFFER_WIDTH as int);
            erases(grid(before), row, col, seq![value]) == (lost_bit(
                before@[target]@[first],
                after@[target]@[first],
            ) || lost_bit(before@[target]@[next], after@[target]@[next]))
        }),
{
    let target = row % (DISPLAY_HEIGHT as int);
    let first = (col % (DISPLAY_WIDTH as int)) / 8;
    let next = (first + 1) % (BUFFER_WIDTH as int);
    let sprite = seq![value];
    let pixels = grid(before);
    lemma_lost_bit_of_xor(before@[target]@[first], row_mask(value, col, first));
    lemma_lost_bit_of_xor(before@[target]@[next], row_mask(value, col, next));
    assert(after@[target]@[first] == before@[target]@[first] ^ row_mask(value, col, first));
    assert(after@[target]@[next] == before@[target]@[next] ^ row_mask(value, col, next));
    if lost_bit(before@[target]@[first], after@[target]@[first]) || lost_bit(
        before@[target]@[next],
        after@[target]@[next],
    ) {
        let index = if lost_bit(before@[target]@[first], after@[target]@[first]) {
            first
        } else {
            next
        };
        let bit = lemma_common_bit(before@[target]@[index], row_mask(value, col, index));
        let x = index * 8 + bit;
        assert(x / 8 == index && x % 8 == bit);
        lemma_row_mask_bit(value, col, x);
        lemma_wrapped_distance(row, target, DISPLAY_HEIGHT as int);
        assert(erased_at(pixels, row, col, sprite, target, x));
    }
    if erases(pixels, row, col, sprite) {
        let (y, x) = choose|y: int, x: int| #[trigger] erased_at(pixels, row, col, sprite, y, x);
        lemma_wrapped_distance(row, y, DISPLAY_HEIGHT as int);
        assert(y == target);
        let index = x / 8;
        lemma_row_mask_bit(value, col, x);
        lemma_bits_meet(before@[target]@[index], row_mask(value, col, index), (x % 8) as u8);
        if index != first && index != next {
            let byte = before@[target]@[index];
            assert(byte & 0 == 0) by (bit_vector);
        }
    }
}

/// Row `done` of a sprite lands on one pixel row of its own, apart from
/// the rows above it.
proof fn lemma_next_row(sprite: Seq<u8>, done: int, row: int, col: int, y: int, x: int)
    requires
        0 <= done < sprite.len(),
        done < DISPLAY_HEIGHT,
        0 <= y < DISPLAY_HEIGHT,
        0 <= x < DISPLAY_WIDTH,
    ensures
        ({
            let target = (row % (DISPLAY_HEIGHT as int) + done) % (DISPLAY_HEIGHT as int);
            let above = sprite_bit(sprite.take(done), row, col, y, x);
            let this = sprite_bit(seq![sprite[done]], target, col, y, x);
            &&& sprite_bit(sprite.take(done + 1), row, col, y, x) == (above != this)
            &&& !(above && this)
        }),
{
    let target = (row % (DISPLAY_HEIGHT as int) + done) % (DISPLAY_HEIGHT as int);
    lemma_wrapped_distance(row, y, DISPLAY_HEIGHT as int);
    lemma_wrapped_distance(target, y, DISPLAY_HEIGHT as int);
    let i = (y - row) % (DISPLAY_HEIGHT as int);
    assert((i == done) == (y == target));
    assert((y - target) % (DISPLAY_HEIGHT as int) == 0 <==> y == target);
    if i < done {
        assert(sprite.take(done)[i] == sprite.take(done + 1)[i]);
    }
    if i == done {
        assert(sprite.take(done + 1)[i] == seq![sprite[done]][0]);
    }
}

} // verus!
