use vstd::prelude::*;

use crate::buffer::filled;

verus! {

/// Total framebuffer size in bytes: the high resolution (128x64 pixels at
/// 16 bytes per scan line) plus 4 guard scan lines that absorb vertical
/// scroll overflow.
pub const VIDEO_BYTES: usize = 0x440;

/// Whether bit `j` of byte `b` is set, counting from the most significant
/// bit: bit 0 is `0x80`.
pub open spec fn bit_set(b: u8, j: u8) -> bool
    recommends
        j < 8,
{
    b & (0x80u8 >> j) != 0
}

/// The pixel at column `x`, row `y` of a bit-packed framebuffer with
/// `pitch` bytes per scan line, MSB first within each byte.
pub open spec fn pixel(v: Seq<u8>, pitch: int, x: int, y: int) -> bool
    recommends
        pitch == 8 || pitch == 16,
        0 <= x < pitch * 8,
        0 <= y < pitch * 4,
        v.len() == VIDEO_BYTES,
{
    bit_set(v[y * pitch + x / 8], (x % 8) as u8)
}

/// Maps a screen position back to its offset from a wrapped start
/// coordinate: the unique `off` in `[0, size)` with
/// `(start + off) % size == pos`.
pub open spec fn wrap_back(pos: int, start: int, size: int) -> int
    recommends
        0 < size,
        0 <= start < size,
        0 <= pos < size,
{
    (pos - start + size) % size
}

/// The number of rows a sprite covers: 16 for a 16x16 sprite, else one row
/// per byte.
pub open spec fn sprite_rows(sprite: Seq<u8>, wide: bool) -> int {
    if wide {
        16
    } else {
        sprite.len() as int
    }
}

/// The number of columns a sprite covers: 16 for a 16x16 sprite, else 8.
pub open spec fn sprite_cols(wide: bool) -> int {
    if wide {
        16
    } else {
        8
    }
}

/// The sprite bit at row `r`, column `c`: a 16x16 sprite packs each row
/// into two consecutive bytes, an ordinary sprite into one.
pub open spec fn sprite_bit(sprite: Seq<u8>, wide: bool, r: int, c: int) -> bool
    recommends
        0 <= r < sprite_rows(sprite, wide),
        0 <= c < sprite_cols(wide),
{
    if wide {
        bit_set(sprite[2 * r + c / 8], (c % 8) as u8)
    } else {
        bit_set(sprite[r], c as u8)
    }
}

/// Whether the sprite drawn with its top-left corner wrapped to
/// `(sx, sy)` covers the screen position `(px, py)`, where the drawn cell
/// grid is bounded by `(r0, c0)` in row-major order: rows before `r0`
/// entirely, row `r0` up to column `c0`.
pub open spec fn drawn_cell(
    pitch: int,
    sx: int,
    sy: int,
    rows: int,
    cols: int,
    r0: int,
    c0: int,
    px: int,
    py: int,
) -> bool {
    let w = pitch * 8;
    let h = pitch * 4;
    let rr = wrap_back(py, sy, h);
    let cc = wrap_back(px, sx, w);
    &&& rr < rows
    &&& cc < cols
    &&& (rr < r0 || (rr == r0 && cc < c0))
}

/// Relates a framebuffer before and after drawing the first `r0` rows plus
/// `c0` cells of row `r0` of a sprite at `(x, y)`: each covered pixel is
/// XOR-combined with its sprite bit, every other visible pixel and every
/// guard byte is unchanged, and `collided` holds exactly when some covered,
/// set sprite bit met an already-lit pixel.
pub open spec fn draw_partial(
    old_v: Seq<u8>,
    new_v: Seq<u8>,
    pitch: int,
    x: int,
    y: int,
    sprite: Seq<u8>,
    wide: bool,
    collided: bool,
    r0: int,
    c0: int,
) -> bool {
    let w = pitch * 8;
    let h = pitch * 4;
    let sx = x % w;
    let sy = y % h;
    let rows = sprite_rows(sprite, wide);
    let cols = sprite_cols(wide);
    &&& new_v.len() == old_v.len()
    &&& forall|px: int, py: int|
        0 <= px < w && 0 <= py < h ==> #[trigger] pixel(new_v, pitch, px, py) == (pixel(
            old_v,
            pitch,
            px,
            py,
        ) != (drawn_cell(pitch, sx, sy, rows, cols, r0, c0, px, py) && sprite_bit(
            sprite,
            wide,
            wrap_back(py, sy, h),
            wrap_back(px, sx, w),
        )))
    &&& forall|k: int|
        pitch * pitch * 4 <= k < old_v.len() ==> #[trigger] new_v[k] == old_v[k]
    &&& collided == exists|px: int, py: int|
        0 <= px < w && 0 <= py < h && drawn_cell(pitch, sx, sy, rows, cols, r0, c0, px, py)
            && sprite_bit(sprite, wide, wrap_back(py, sy, h), wrap_back(px, sx, w))
            && #[trigger] pixel(old_v, pitch, px, py)
}

/// Whether drawing the sprite at `(x, y)` over `old_v` collides: some set
/// sprite bit lands on an already-lit pixel.
pub open spec fn draw_collides(
    old_v: Seq<u8>,
    pitch: int,
    x: int,
    y: int,
    sprite: Seq<u8>,
    wide: bool,
) -> bool {
    let w = pitch * 8;
    let h = pitch * 4;
    let sx = x % w;
    let sy = y % h;
    let rows = sprite_rows(sprite, wide);
    let cols = sprite_cols(wide);
    exists|px: int, py: int|
        0 <= px < w && 0 <= py < h && drawn_cell(pitch, sx, sy, rows, cols, rows, 0, px, py)
            && sprite_bit(sprite, wide, wrap_back(py, sy, h), wrap_back(px, sx, w))
            && #[trigger] pixel(old_v, pitch, px, py)
}

/// Relates a framebuffer before and after drawing a whole sprite at
/// `(x, y)`: XOR with wraparound in both directions, everything else
/// unchanged, `collided` exactly when a set sprite bit cleared a lit pixel.
pub open spec fn draw_rel(
    old_v: Seq<u8>,
    new_v: Seq<u8>,
    pitch: int,
    x: int,
    y: int,
    sprite: Seq<u8>,
    wide: bool,
    collided: bool,
) -> bool {
    draw_partial(
        old_v,
        new_v,
        pitch,
        x,
        y,
        sprite,
        wide,
        collided,
        sprite_rows(sprite, wide),
        0,
    )
}

/// The monochrome display: a bit-packed framebuffer sized for the larger
/// resolution, and the active number of bytes per scan line. Switching
/// resolution only changes `pitch`; the buffer is reinterpreted, never
/// resized.
pub struct Display {
    /// The bit-packed framebuffer, one bit per pixel, MSB first.
    pub video: Vec<u8>,
    /// Bytes per scan line: 8 in low resolution (64x32), 16 in high
    /// resolution (128x64).
    pub pitch: usize,
}

impl Display {
    /// The buffer always holds `VIDEO_BYTES` bytes and the pitch selects
    /// one of the two resolutions.
    pub open spec fn wf(&self) -> bool {
        &&& self.video@.len() == VIDEO_BYTES
        &&& (self.pitch == 8 || self.pitch == 16)
    }

    /// The width of the active resolution in pixels.
    pub open spec fn spec_width(&self) -> int {
        self.pitch * 8
    }

    /// The height of the active resolution in pixels.
    pub open spec fn spec_height(&self) -> int {
        self.pitch * 4
    }

    /// Every visible pixel is off.
    pub open spec fn all_clear(&self) -> bool {
        forall|px: int, py: int|
            0 <= px < self.spec_width() && 0 <= py < self.spec_height() ==> !pixel(
                self.video@,
                self.pitch as int,
                px,
                py,
            )
    }

    /// A fresh display: low resolution, every byte zero.
    pub fn new() -> (d: Display)
        ensures
            d.wf(),
            d.pitch == 8,
            d.video@ =~= Seq::new(VIDEO_BYTES as nat, |i: int| 0u8),
            d.all_clear(),
    {
        let d = Display { video: filled(VIDEO_BYTES, 0u8), pitch: 8 };
        proof {
            lemma_zero_byte_clear();
        }
        d
    }

    /// The width of the active resolution in pixels.
    pub fn width(&self) -> (w: usize)
        requires
            self.wf(),
        ensures
            w == self.spec_width(),
    {
        self.pitch * 8
    }

    /// The height of the active resolution in pixels.
    pub fn height(&self) -> (h: usize)
        requires
            self.wf(),
        ensures
            h == self.spec_height(),
    {
        self.pitch * 4
    }

    /// Clears the whole framebuffer, guard lines included.
    pub fn clear(&mut self)
        requires
            old(self).wf(),
        ensures
            final(self).wf(),
            final(self).pitch == old(self).pitch,
            final(self).video@ =~= Seq::new(VIDEO_BYTES as nat, |i: int| 0u8),
            final(self).all_clear(),
    {
        self.video = filled(VIDEO_BYTES, 0u8);
        proof {
            lemma_zero_byte_clear();
        }
    }

    /// Switches the active resolution without touching the buffer contents.
    pub fn set_resolution(&mut self, high: bool)
        requires
            old(self).wf(),
        ensures
            final(self).wf(),
            final(self).video@ == old(self).video@,
            final(self).pitch == (if high { 16int } else { 8int }),
    {
        self.pitch = if high {
            16
        } else {
            8
        };
    }

    /// Flips the single pixel at `(x, y)` and reports whether it was lit
    /// before the flip (i.e. whether the flip cleared it).
    fn xor_pixel(&mut self, x: usize, y: usize) -> (was_set: bool)
        requires
            old(self).wf(),
            x < old(self).spec_width(),
            y < old(self).spec_height(),
        ensures
            final(self).wf(),
            final(self).pitch == old(self).pitch,
            pixel(final(self).video@, old(self).pitch as int, x as int, y as int) == !pixel(
                old(self).video@,
                old(self).pitch as int,
                x as int,
                y as int,
            ),
            forall|x2: int, y2: int|
                0 <= x2 < old(self).spec_width() && 0 <= y2 < old(self).spec_height() && !(x2 == x
                    && y2 == y) ==> #[trigger] pixel(
                    final(self).video@,
                    old(self).pitch as int,
                    x2,
                    y2,
                ) == pixel(old(self).video@, old(self).pitch as int, x2, y2),
            forall|k: int|
                0 <= k < VIDEO_BYTES && k != y * old(self).pitch + x as int / 8
                    ==> #[trigger] final(self).video@[k] == old(self).video@[k],
            was_set == pixel(old(self).video@, old(self).pitch as int, x as int, y as int),
    {
        proof {
            lemma_video_index(self.pitch as int, x as int, y as int);
        }
        let idx: usize = y * self.pitch + x / 8;
        let j: u8 = (x % 8) as u8;
        let mask: u8 = 0x80u8 >> j;
        let b: u8 = self.video[idx];
        let was: bool = b & mask != 0;
        self.video[idx] = b ^ mask;
        proof {
            let p = old(self).pitch as int;
            lemma_xor_bits(b, j);
            assert forall|x2: int, y2: int|
                0 <= x2 < p * 8 && 0 <= y2 < p * 4 && !(x2 == x && y2 == y) implies #[trigger] pixel(
                self.video@,
                p,
                x2,
                y2,
            ) == pixel(old(self).video@, p, x2, y2) by {
                lemma_video_index(p, x2, y2);
                if y2 * p + x2 / 8 == idx {
                    lemma_same_byte_same_cell(p, x as int, y as int, x2, y2);
                    assert((x2 % 8) as u8 != j);
                }
            }
        }
        was
    }

    /// Scrolls the visible rows down by `n` scan lines: row `y` takes the
    /// contents of row `y - n`, the top `n` rows become blank, and the rows
    /// pushed past the bottom are discarded.
    pub fn scroll_down(&mut self, n: u8)
        requires
            old(self).wf(),
            n < 16,
        ensures
            final(self).wf(),
            final(self).pitch == old(self).pitch,
            forall|k: int|
                0 <= k < n * old(self).pitch ==> final(self).video@[k] == 0,
            forall|k: int|
                n * old(self).pitch <= k < old(self).pitch * old(self).pitch * 4
                    ==> final(self).video@[k] == old(self).video@[k - n * old(self).pitch],
            forall|k: int|
                old(self).pitch * old(self).pitch * 4 <= k < VIDEO_BYTES ==> final(self).video@[k] == old(self).video@[k],
    {
        let ghost pre = *old(self);
        let pitch = self.pitch;
        let visible: usize = pitch * pitch * 4;
        let shift: usize = (n as usize) * pitch;
        assert(visible == 256 || visible == 1024);
        assert(shift <= 240);
        let mut i: usize = visible;
        while i > shift
            invariant
                self.wf(),
                self.pitch == pre.pitch,
                pre.wf(),
                visible == pre.pitch * pre.pitch * 4,
                shift == n * pre.pitch,
                shift <= i <= visible,
                forall|k: int| 0 <= k < i ==> self.video@[k] == pre.video@[k],
                forall|k: int| i <= k < visible ==> self.video@[k] == pre.video@[k - shift],
                forall|k: int| visible <= k < VIDEO_BYTES ==> self.video@[k] == pre.video@[k],
            decreases i,
        {
            i = i - 1;
            let moved: u8 = self.video[i - shift];
            self.video[i] = moved;
        }
        let mut z: usize = 0;
        while z < shift
            invariant
                self.wf(),
                self.pitch == pre.pitch,
                pre.wf(),
                visible == pre.pitch * pre.pitch * 4,
                shift == n * pre.pitch,
                z <= shift,
                shift <= visible,
                forall|k: int| 0 <= k < z ==> self.video@[k] == 0,
                forall|k: int| z <= k < shift ==> self.video@[k] == pre.video@[k],
                forall|k: int| shift <= k < visible ==> self.video@[k] == pre.video@[k - shift],
                forall|k: int| visible <= k < VIDEO_BYTES ==> self.video@[k] == pre.video@[k],
            decreases shift - z,
        {
            self.video[z] = 0;
            z = z + 1;
        }
    }

    /// Scrolls the visible rows up by `n` scan lines: row `y` takes the
    /// contents of row `y + n`, the bottom `n` rows become blank, and the
    /// rows pushed past the top are discarded.
    pub fn scroll_up(&mut self, n: u8)
        requires
            old(self).wf(),
            n < 16,
        ensures
            final(self).wf(),
            final(self).pitch == old(self).pitch,
            forall|k: int|
                0 <= k < old(self).pitch * old(self).pitch * 4 - n * old(self).pitch ==> final(self).video@[k] == old(self).video@[k + n * old(self).pitch],
            forall|k: int|
                old(self).pitch * old(self).pitch * 4 - n * old(self).pitch <= k < old(self).pitch * old(self).pitch * 4 ==> final(self).video@[k] == 0,
            forall|k: int|
                old(self).pitch * old(self).pitch * 4 <= k < VIDEO_BYTES ==> final(self).video@[k] == old(self).video@[k],
    {
        let ghost pre = *old(self);
        let pitch = self.pitch;
        let visible: usize = pitch * pitch * 4;
        let shift: usize = (n as usize) * pitch;
        assert(visible == 256 || visible == 1024);
        assert(shift <= 240);
        let bound: usize = visible - shift;
        let mut i: usize = 0;
        while i < bound
            invariant
                self.wf(),
                self.pitch == pre.pitch,
                pre.wf(),
                visible == pre.pitch * pre.pitch * 4,
                shift == n * pre.pitch,
                bound == visible - shift,
                i <= bound,
                forall|k: int| 0 <= k < i ==> self.video@[k] == pre.video@[k + shift],
                forall|k: int| i <= k < VIDEO_BYTES ==> self.video@[k] == pre.video@[k],
            decreases bound - i,
        {
            let moved: u8 = self.video[i + shift];
            self.video[i] = moved;
            i = i + 1;
        }
        let mut z: usize = bound;
        while z < visible
            invariant
                self.wf(),
                self.pitch == pre.pitch,
                pre.wf(),
                visible == pre.pitch * pre.pitch * 4,
                shift == n * pre.pitch,
                bound == visible - shift,
                bound <= z <= visible,
                forall|k: int| 0 <= k < bound ==> self.video@[k] == pre.video@[k + shift],
                forall|k: int| bound <= k < z ==> self.video@[k] == 0,
                forall|k: int| z <= k < VIDEO_BYTES ==> self.video@[k] == pre.video@[k],
            decreases visible - z,
        {
            self.video[z] = 0;
            z = z + 1;
        }
    }

    /// Draws a sprite with its top-left corner at `(x, y)` wrapped into the
    /// active resolution: every set sprite bit is XOR-combined into the
    /// framebuffer, with horizontal and vertical wraparound. Returns whether
    /// any previously-lit pixel was cleared.
    pub fn draw_sprite(&mut self, x: u8, y: u8, sprite: &Vec<u8>, wide: bool) -> (collided: bool)
        requires
            old(self).wf(),
            wide ==> sprite@.len() == 32,
            !wide ==> sprite@.len() <= 15,
        ensures
            final(self).wf(),
            final(self).pitch == old(self).pitch,
            draw_rel(
                old(self).video@,
                final(self).video@,
                old(self).pitch as int,
                x as int,
                y as int,
                sprite@,
                wide,
                collided,
            ),
    {
        let ghost pre = *old(self);
        let ghost p = self.pitch as int;
        let pitch = self.pitch;
        let w: usize = pitch * 8;
        let h: usize = pitch * 4;
        let sx: usize = (x as usize) % w;
        let sy: usize = (y as usize) % h;
        let rows: usize = if wide {
            16
        } else {
            sprite.len()
        };
        let cols: usize = if wide {
            16
        } else {
            8
        };
        let mut collided = false;
        let mut r: usize = 0;
        while r < rows
            invariant
                self.wf(),
                self.pitch == pre.pitch,
                pre.wf(),
                p == pre.pitch as int,
                w == p * 8,
                h == p * 4,
                sx == x as int % (p * 8),
                sy == y as int % (p * 4),
                sx < w,
                sy < h,
                rows == sprite_rows(sprite@, wide),
                cols == sprite_cols(wide),
                wide ==> sprite@.len() == 32,
                !wide ==> sprite@.len() <= 15,
                r <= rows,
                draw_partial(
                    pre.video@,
                    self.video@,
                    p,
                    x as int,
                    y as int,
                    sprite@,
                    wide,
                    collided,
                    r as int,
                    0,
                ),
            decreases rows - r,
        {
            let mut c: usize = 0;
            while c < cols
                invariant
                    self.wf(),
                    self.pitch == pre.pitch,
                    pre.wf(),
                    p == pre.pitch as int,
                    w == p * 8,
                    h == p * 4,
                    sx == x as int % (p * 8),
                    sy == y as int % (p * 4),
                    sx < w,
                    sy < h,
                    rows == sprite_rows(sprite@, wide),
                    cols == sprite_cols(wide),
                    wide ==> sprite@.len() == 32,
                    !wide ==> sprite@.len() <= 15,
                    r < rows,
                    c <= cols,
                    draw_partial(
                        pre.video@,
                        self.video@,
                        p,
                        x as int,
                        y as int,
                        sprite@,
                        wide,
                        collided,
                        r as int,
                        c as int,
                    ),
                decreases cols - c,
            {
                let bit: bool = if wide {
                    let j: u8 = (c % 8) as u8;
                    sprite[2 * r + c / 8] & (0x80u8 >> j) != 0
                } else {
                    let j: u8 = c as u8;
                    sprite[r] & (0x80u8 >> j) != 0
                };
                assert(bit == sprite_bit(sprite@, wide, r as int, c as int));
                let px: usize = (sx + c) % w;
                let py: usize = (sy + r) % h;
                proof {
                    lemma_wrap_round_trip(sx as int, c as int, w as int);
                    lemma_wrap_round_trip(sy as int, r as int, h as int);
                }
                let ghost mid = self.video@;
                let ghost oldcol = collided;
                let ghost ri = r as int;
                let ghost ci = c as int;
                let ghost wi = p * 8;
                let ghost hi = p * 4;
                let ghost rows_i = sprite_rows(sprite@, wide);
                let ghost cols_i = sprite_cols(wide);
                let ghost sxi = sx as int;
                let ghost syi = sy as int;
                let ghost pxi = px as int;
                let ghost pyi = py as int;
                if bit {
                    let was = self.xor_pixel(px, py);
                    collided = collided || was;
                    proof {
                        lemma_video_index(p, pxi, pyi);
                        assert(!drawn_cell(p, sxi, syi, rows_i, cols_i, ri, ci, pxi, pyi));
                        assert(pixel(mid, p, pxi, pyi) == pixel(pre.video@, p, pxi, pyi));
                        assert(was == pixel(pre.video@, p, pxi, pyi));
                        assert forall|px2: int, py2: int|
                            0 <= px2 < wi && 0 <= py2 < hi implies #[trigger] pixel(
                            self.video@,
                            p,
                            px2,
                            py2,
                        ) == (pixel(pre.video@, p, px2, py2) != (drawn_cell(
                            p,
                            sxi,
                            syi,
                            rows_i,
                            cols_i,
                            ri,
                            ci + 1,
                            px2,
                            py2,
                        ) && sprite_bit(
                            sprite@,
                            wide,
                            wrap_back(py2, syi, hi),
                            wrap_back(px2, sxi, wi),
                        ))) by {
                            if !(px2 == pxi && py2 == pyi) {
                                if wrap_back(px2, sxi, wi) == ci && wrap_back(py2, syi, hi)
                                    == ri {
                                    lemma_wrap_forward(sxi, px2, wi);
                                    lemma_wrap_forward(syi, py2, hi);
                                }
                            }
                        }
                        if collided {
                            if oldcol {
                                let (wx, wy) = choose|wx: int, wy: int|
                                    0 <= wx < wi && 0 <= wy < hi && drawn_cell(
                                        p,
                                        sxi,
                                        syi,
                                        rows_i,
                                        cols_i,
                                        ri,
                                        ci,
                                        wx,
                                        wy,
                                    ) && sprite_bit(
                                        sprite@,
                                        wide,
                                        wrap_back(wy, syi, hi),
                                        wrap_back(wx, sxi, wi),
                                    ) && #[trigger] pixel(pre.video@, p, wx, wy);
                                assert(drawn_cell(p, sxi, syi, rows_i, cols_i, ri, ci + 1, wx, wy)
                                    && sprite_bit(
                                    sprite@,
                                    wide,
                                    wrap_back(wy, syi, hi),
                                    wrap_back(wx, sxi, wi),
                                ) && pixel(pre.video@, p, wx, wy));
                            } else {
                                assert(drawn_cell(
                                    p,
                                    sxi,
                                    syi,
                                    rows_i,
                                    cols_i,
                                    ri,
                                    ci + 1,
                                    pxi,
                                    pyi,
                                ) && sprite_bit(
                                    sprite@,
                                    wide,
                                    wrap_back(pyi, syi, hi),
                                    wrap_back(pxi, sxi, wi),
                                ) && pixel(pre.video@, p, pxi, pyi));
                            }
                        } else {
                            assert forall|px2: int, py2: int|
                                0 <= px2 < wi && 0 <= py2 < hi && drawn_cell(
                                    p,
                                    sxi,
                                    syi,
                                    rows_i,
                                    cols_i,
                                    ri,
                                    ci + 1,
                                    px2,
                                    py2,
                                ) && sprite_bit(
                                    sprite@,
                                    wide,
                                    wrap_back(py2, syi, hi),
                                    wrap_back(px2, sxi, wi),
                                ) implies !#[trigger] pixel(pre.video@, p, px2, py2) by {
                                if !drawn_cell(p, sxi, syi, rows_i, cols_i, ri, ci, px2, py2) {
                                    lemma_wrap_forward(sxi, px2, wi);
                                    lemma_wrap_forward(syi, py2, hi);
                                }
                            }
                        }
                    }
                } else {
                    proof {
                        assert forall|px2: int, py2: int|
                            0 <= px2 < wi && 0 <= py2 < hi implies #[trigger] pixel(
                            self.video@,
                            p,
                            px2,
                            py2,
                        ) == (pixel(pre.video@, p, px2, py2) != (drawn_cell(
                            p,
                            sxi,
                            syi,
                            rows_i,
                            cols_i,
                            ri,
                            ci + 1,
                            px2,
                            py2,
                        ) && sprite_bit(
                            sprite@,
                            wide,
                            wrap_back(py2, syi, hi),
                            wrap_back(px2, sxi, wi),
                        ))) by {
                            if wrap_back(px2, sxi, wi) == ci && wrap_back(py2, syi, hi) == ri {
                                lemma_wrap_forward(sxi, px2, wi);
                                lemma_wrap_forward(syi, py2, hi);
                            }
                        }
                        if collided {
                            let (wx, wy) = choose|wx: int, wy: int|
                                0 <= wx < wi && 0 <= wy < hi && drawn_cell(
                                    p,
                                    sxi,
                                    syi,
                                    rows_i,
                                    cols_i,
                                    ri,
                                    ci,
                                    wx,
                                    wy,
                                ) && sprite_bit(
                                    sprite@,
                                    wide,
                                    wrap_back(wy, syi, hi),
                                    wrap_back(wx, sxi, wi),
                                ) && #[trigger] pixel(pre.video@, p, wx, wy);
                            assert(drawn_cell(p, sxi, syi, rows_i, cols_i, ri, ci + 1, wx, wy)
                                && sprite_bit(
                                sprite@,
                                wide,
                                wrap_back(wy, syi, hi),
                                wrap_back(wx, sxi, wi),
                            ) && pixel(pre.video@, p, wx, wy));
                        } else {
                            assert forall|px2: int, py2: int|
                                0 <= px2 < wi && 0 <= py2 < hi && drawn_cell(
                                    p,
                                    sxi,
                                    syi,
                                    rows_i,
                                    cols_i,
                                    ri,
                                    ci + 1,
                                    px2,
                                    py2,
                                ) && sprite_bit(
                                    sprite@,
                                    wide,
                                    wrap_back(py2, syi, hi),
                                    wrap_back(px2, sxi, wi),
                                ) implies !#[trigger] pixel(pre.video@, p, px2, py2) by {
                                if !drawn_cell(p, sxi, syi, rows_i, cols_i, ri, ci, px2, py2) {
                                    lemma_wrap_forward(sxi, px2, wi);
                                    lemma_wrap_forward(syi, py2, hi);
                                }
                            }
                        }
                    }
                }
                c = c + 1;
            }
            r = r + 1;
            proof {
                let ghost wi = p * 8;
                let ghost hi = p * 4;
                let ghost rows_i = sprite_rows(sprite@, wide);
                let ghost cols_i = sprite_cols(wide);
                let ghost sxi = sx as int;
                let ghost syi = sy as int;
                if collided {
                    let (wx, wy) = choose|wx: int, wy: int|
                        0 <= wx < wi && 0 <= wy < hi && drawn_cell(
                            p,
                            sxi,
                            syi,
                            rows_i,
                            cols_i,
                            r - 1,
                            cols_i,
                            wx,
                            wy,
                        ) && sprite_bit(
                            sprite@,
                            wide,
                            wrap_back(wy, syi, hi),
                            wrap_back(wx, sxi, wi),
                        ) && #[trigger] pixel(pre.video@, p, wx, wy);
                    assert(drawn_cell(p, sxi, syi, rows_i, cols_i, r as int, 0, wx, wy));
                }
            }
        }
        collided
    }
}

/// The draw law: drawing the same sprite twice at the same coordinates
/// restores every visible pixel, and — when the screen was clear before the
/// first draw — the second draw reports a collision exactly when the sprite
/// has any set bit in its grid.
pub proof fn lemma_draw_twice_restores(
    v0: Seq<u8>,
    v1: Seq<u8>,
    v2: Seq<u8>,
    pitch: int,
    x: int,
    y: int,
    sprite: Seq<u8>,
    wide: bool,
    c1: bool,
    c2: bool,
)
    requires
        pitch == 8 || pitch == 16,
        0 <= x,
        0 <= y,
        wide ==> sprite.len() == 32,
        !wide ==> sprite.len() <= 15,
        draw_rel(v0, v1, pitch, x, y, sprite, wide, c1),
        draw_rel(v1, v2, pitch, x, y, sprite, wide, c2),
    ensures
        forall|px: int, py: int|
            0 <= px < pitch * 8 && 0 <= py < pitch * 4 ==> #[trigger] pixel(v2, pitch, px, py)
                == pixel(v0, pitch, px, py),
        (forall|px: int, py: int|
            0 <= px < pitch * 8 && 0 <= py < pitch * 4 ==> !#[trigger] pixel(
                v0,
                pitch,
                px,
                py,
            )) ==> c2 == exists|rr: int, cc: int|
            0 <= rr < sprite_rows(sprite, wide) && 0 <= cc < sprite_cols(wide)
                && #[trigger] sprite_bit(sprite, wide, rr, cc),
{
    let w = pitch * 8;
    let h = pitch * 4;
    let sx = x % w;
    let sy = y % h;
    let rows = sprite_rows(sprite, wide);
    let cols = sprite_cols(wide);
    assert forall|px: int, py: int| 0 <= px < w && 0 <= py < h implies #[trigger] pixel(
        v2,
        pitch,
        px,
        py,
    ) == pixel(v0, pitch, px, py) by {
        assert(pixel(v1, pitch, px, py) == (pixel(v0, pitch, px, py) != (drawn_cell(
            pitch,
            sx,
            sy,
            rows,
            cols,
            rows,
            0,
            px,
            py,
        ) && sprite_bit(sprite, wide, wrap_back(py, sy, h), wrap_back(px, sx, w)))));
    }
    if forall|px: int, py: int|
        0 <= px < w && 0 <= py < h ==> !#[trigger] pixel(v0, pitch, px, py) {
        if c2 {
            let (wx, wy) = choose|wx: int, wy: int|
                0 <= wx < w && 0 <= wy < h && drawn_cell(
                    pitch,
                    sx,
                    sy,
                    rows,
                    cols,
                    rows,
                    0,
                    wx,
                    wy,
                ) && sprite_bit(sprite, wide, wrap_back(wy, sy, h), wrap_back(wx, sx, w))
                    && #[trigger] pixel(v1, pitch, wx, wy);
            let rr = wrap_back(wy, sy, h);
            let cc = wrap_back(wx, sx, w);
            assert(0 <= rr < rows && 0 <= cc < cols && sprite_bit(sprite, wide, rr, cc));
        }
        if exists|rr: int, cc: int|
            0 <= rr < rows && 0 <= cc < cols && #[trigger] sprite_bit(sprite, wide, rr, cc) {
            let (rr, cc) = choose|rr: int, cc: int|
                0 <= rr < rows && 0 <= cc < cols && #[trigger] sprite_bit(sprite, wide, rr, cc);
            lemma_wrap_round_trip(sx, cc, w);
            lemma_wrap_round_trip(sy, rr, h);
            let px = (sx + cc) % w;
            let py = (sy + rr) % h;
            assert(drawn_cell(pitch, sx, sy, rows, cols, rows, 0, px, py));
            assert(pixel(v1, pitch, px, py));
            assert(c2);
        }
    }
}

/// Wrapping an offset from a wrapped start coordinate and mapping it back
/// recovers the offset.
proof fn lemma_wrap_round_trip(start: int, off: int, size: int)
    requires
        size == 32 || size == 64 || size == 128,
        0 <= start < size,
        0 <= off < size,
    ensures
        0 <= (start + off) % size < size,
        wrap_back((start + off) % size, start, size) == off,
{
}

/// A screen position is recovered from its offset: the forward map inverts
/// `wrap_back`.
proof fn lemma_wrap_forward(start: int, pos: int, size: int)
    requires
        size == 32 || size == 64 || size == 128,
        0 <= start < size,
        0 <= pos < size,
    ensures
        0 <= wrap_back(pos, start, size) < size,
        (start + wrap_back(pos, start, size)) % size == pos,
{
}

/// Bit 0 to 7 of a zero byte is clear.
proof fn lemma_zero_byte_clear()
    ensures
        forall|j: u8| j < 8 ==> !bit_set(0u8, j),
{
    assert forall|j: u8| j < 8 implies !bit_set(0u8, j) by {
        assert(j < 8 ==> 0u8 & (0x80u8 >> j) == 0) by (bit_vector);
    }
}

/// XOR with a one-bit mask flips that bit and leaves the others alone.
proof fn lemma_xor_bits(b: u8, j: u8)
    requires
        j < 8,
    ensures
        bit_set(b ^ (0x80u8 >> j), j) == !bit_set(b, j),
        forall|j2: u8| j2 < 8 && j2 != j ==> bit_set(b ^ (0x80u8 >> j), j2) == bit_set(b, j2),
{
    assert(j < 8 ==> (bit_set(b ^ (0x80u8 >> j), j) == !bit_set(b, j))) by (bit_vector);
    assert forall|j2: u8| j2 < 8 && j2 != j implies bit_set(b ^ (0x80u8 >> j), j2) == bit_set(
        b,
        j2,
    ) by {
        assert(j < 8 && j2 < 8 && j2 != j ==> (bit_set(b ^ (0x80u8 >> j), j2) == bit_set(b, j2)))
            by (bit_vector);
    }
}

/// The byte index of a visible pixel lies inside the visible part of the
/// buffer.
proof fn lemma_video_index(pitch: int, x: int, y: int)
    requires
        pitch == 8 || pitch == 16,
        0 <= x < pitch * 8,
        0 <= y < pitch * 4,
    ensures
        0 <= y * pitch + x / 8,
        y * pitch + x / 8 < pitch * pitch * 4,
        pitch * pitch * 4 <= VIDEO_BYTES,
{
    if pitch == 8 {
        assert(y * pitch == y * 8);
        assert(x / 8 < 8);
    } else {
        assert(y * pitch == y * 16);
        assert(x / 8 < 16);
    }
}

/// Two visible pixel positions that share a byte share the cell: same row,
/// and different columns occupy different bits.
proof fn lemma_same_byte_same_cell(pitch: int, x1: int, y1: int, x2: int, y2: int)
    requires
        pitch == 8 || pitch == 16,
        0 <= x1 < pitch * 8,
        0 <= y1 < pitch * 4,
        0 <= x2 < pitch * 8,
        0 <= y2 < pitch * 4,
        y1 * pitch + x1 / 8 == y2 * pitch + x2 / 8,
        !(x1 == x2 && y1 == y2),
    ensures
        y1 == y2,
        x1 % 8 != x2 % 8,
{
    if pitch == 8 {
        assert(y1 * pitch == y1 * 8 && y2 * pitch == y2 * 8);
    } else {
        assert(y1 * pitch == y1 * 16 && y2 * pitch == y2 * 16);
    }
}

} // verus!
