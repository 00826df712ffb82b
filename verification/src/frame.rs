use vstd::prelude::*;

verus! {

/// Number of pixels in the 64x32 frame buffer.
pub const PIXEL_COUNT: usize = 2048;

/// The monochrome frame buffer: 64 columns by 32 rows of boolean pixels,
/// stored row-major, so the pixel at column `x` and row `y` is entry
/// `y * 64 + x` of the view.
pub struct FrameBuffer {
    pixels: Vec<bool>,
}

/// The all-off frame that the machine starts with and that a clear produces.
pub open spec fn blank_frame() -> Seq<bool> {
    Seq::new(2048, |k: int| false)
}

/// Whether bit `b` (0 = most significant) of a sprite row byte is set.
pub open spec fn sprite_bit(row: u8, b: u8) -> bool {
    row & (0x80u8 >> b) != 0
}

/// The frame that results from XOR-drawing `sprite` anchored at column `x0`,
/// row `y0`: a pixel toggles exactly when it lies inside the sprite's
/// footprint (8 columns from `x0`, one row per sprite byte from `y0`) and the
/// corresponding sprite bit is set. Pixels outside the 64x32 grid are
/// dropped, never wrapped; every other pixel keeps its value.
pub open spec fn draw_video(video: Seq<bool>, sprite: Seq<u8>, x0: int, y0: int) -> Seq<bool> {
    Seq::new(video.len(), |k: int| {
        let px = k % 64;
        let py = k / 64;
        if x0 <= px < x0 + 8 && y0 <= py < y0 + sprite.len() {
            video[k] != sprite_bit(sprite[py - y0], (px - x0) as u8)
        } else {
            video[k]
        }
    })
}

/// Whether drawing would toggle pixel `k` from on to off: the pixel is lit
/// and the sprite bit covering it is set.
pub open spec fn draw_hit(video: Seq<bool>, sprite: Seq<u8>, x0: int, y0: int, k: int) -> bool {
    let px = k % 64;
    let py = k / 64;
    x0 <= px < x0 + 8 && y0 <= py < y0 + sprite.len() && video[k] && sprite_bit(
        sprite[py - y0],
        (px - x0) as u8,
    )
}

/// The collision flag of a draw: some in-grid pixel goes from on to off.
pub open spec fn draw_collision(video: Seq<bool>, sprite: Seq<u8>, x0: int, y0: int) -> bool {
    exists|k: int| 0 <= k < 2048 && draw_hit(video, sprite, x0, y0, k)
}

/// The frame after the first `rows` full sprite rows and the first `bits`
/// pixels of row `rows` have been drawn; `draw_video` is the case
/// `rows == sprite.len(), bits == 0`.
spec fn draw_upto(
    video: Seq<bool>,
    sprite: Seq<u8>,
    x0: int,
    y0: int,
    rows: int,
    bits: int,
) -> Seq<bool> {
    Seq::new(video.len(), |k: int| {
        let px = k % 64;
        let py = k / 64;
        if x0 <= px < x0 + 8 && y0 <= py && (py < y0 + rows || (py == y0 + rows && px < x0
            + bits)) && py < y0 + sprite.len() {
            video[k] != sprite_bit(sprite[py - y0], (px - x0) as u8)
        } else {
            video[k]
        }
    })
}

/// The collision flag after the same prefix of the draw.
spec fn collision_upto(
    video: Seq<bool>,
    sprite: Seq<u8>,
    x0: int,
    y0: int,
    rows: int,
    bits: int,
) -> bool {
    exists|k: int|
        0 <= k < 2048 && (k / 64 < y0 + rows || (k / 64 == y0 + rows && k % 64 < x0 + bits))
            && draw_hit(video, sprite, x0, y0, k)
}

impl FrameBuffer {
    /// The frame buffer always holds exactly one boolean per pixel.
    pub open spec fn wf(&self) -> bool {
        self@.len() == 2048
    }

    /// A frame buffer with every pixel off.
    pub fn new() -> (r: FrameBuffer)
        ensures
            r.wf(),
            r@ == blank_frame(),
    {
        let mut pixels: Vec<bool> = Vec::new();
        let mut k: usize = 0;
        while k < PIXEL_COUNT
            invariant
                k <= 2048,
                pixels@.len() == k,
                forall|i: int| 0 <= i < k ==> !pixels@[i],
            decreases 2048 - k,
        {
            pixels.push(false);
            k = k + 1;
        }
        proof {
            assert(pixels@ =~= blank_frame());
        }
        FrameBuffer { pixels }
    }

    /// Switch every pixel off.
    pub fn clear(&mut self)
        requires
            old(self).wf(),
        ensures
            final(self).wf(),
            final(self)@ == blank_frame(),
    {
        let mut k: usize = 0;
        while k < PIXEL_COUNT
            invariant
                k <= 2048,
                self.pixels@.len() == 2048,
                forall|i: int| 0 <= i < k ==> !self.pixels@[i],
            decreases 2048 - k,
        {
            self.pixels.set(k, false);
            k = k + 1;
        }
        proof {
            assert(self.pixels@ =~= blank_frame());
        }
    }

    /// XOR-draw `sprite` anchored at column `x0`, row `y0`. Pixels that
    /// would fall right of column 63 or below row 31 are dropped (no
    /// wraparound). Returns the collision flag: whether some pixel was
    /// toggled from on to off.
    pub fn draw_sprite(&mut self, sprite: &Vec<u8>, x0: u8, y0: u8) -> (collision: bool)
        requires
            old(self).wf(),
            x0 < 64,
            y0 < 32,
            sprite@.len() <= 16,
        ensures
            final(self).wf(),
            final(self)@ == draw_video(old(self)@, sprite@, x0 as int, y0 as int),
            collision == draw_collision(old(self)@, sprite@, x0 as int, y0 as int),
    {
        let ghost v0 = self@;
        let ghost sp = sprite@;
        let ghost xa = x0 as int;
        let ghost ya = y0 as int;
        let n = sprite.len();
        let mut col = false;
        let mut r: usize = 0;
        proof {
            assert(self@ =~= draw_upto(v0, sp, xa, ya, 0, 0));
            assert(forall|k: int|
                !(0 <= k < 2048 && (k / 64 < ya || (k / 64 == ya && k % 64 < xa)) && draw_hit(
                    v0,
                    sp,
                    xa,
                    ya,
                    k,
                )));
            assert(!collision_upto(v0, sp, xa, ya, 0, 0));
        }
        while r < n
            invariant
                self.wf(),
                x0 < 64,
                y0 < 32,
                xa == x0 as int,
                ya == y0 as int,
                r <= n,
                n == sp.len(),
                n <= 16,
                sp == sprite@,
                v0.len() == 2048,
                self@ == draw_upto(v0, sp, xa, ya, r as int, 0),
                col == collision_upto(v0, sp, xa, ya, r as int, 0),
            decreases n - r,
        {
            let row = sprite[r];
            let mut b: usize = 0;
            while b < 8
                invariant
                    self.wf(),
                    x0 < 64,
                    y0 < 32,
                    xa == x0 as int,
                    ya == y0 as int,
                    r < n,
                    b <= 8,
                    n == sp.len(),
                    n <= 16,
                    sp == sprite@,
                    row == sp[r as int],
                    v0.len() == 2048,
                    self@ == draw_upto(v0, sp, xa, ya, r as int, b as int),
                    col == collision_upto(v0, sp, xa, ya, r as int, b as int),
                decreases 8 - b,
            {
                let px = x0 as usize + b;
                let py = y0 as usize + r;
                let ghost ri = r as int;
                let ghost bi = b as int;
                if px < 64 && py < 32 {
                    let k = py * 64 + px;
                    proof {
                        assert(k as int / 64 == py as int && k as int % 64 == px as int)
                            by (nonlinear_arith)
                            requires
                                0 <= px < 64,
                                0 <= py,
                                k as int == py as int * 64 + px as int,
                        ;
                        assert(k < 2048) by (nonlinear_arith)
                            requires
                                px < 64,
                                py < 32,
                                k as int == py as int * 64 + px as int,
                        ;
                    }
                    let bit = row & (0x80u8 >> (b as u8)) != 0;
                    let cur = self.pixels[k];
                    proof {
                        // Pixel k has not been touched yet, so it still holds
                        // its pre-draw value.
                        assert(cur == v0[k as int]);
                        assert(bit == sprite_bit(sp[ri], bi as u8));
                    }
                    if bit && cur {
                        col = true;
                        proof {
                            assert(draw_hit(v0, sp, xa, ya, k as int));
                            assert(collision_upto(v0, sp, xa, ya, ri, bi + 1));
                        }
                    } else {
                        proof {
                            if collision_upto(v0, sp, xa, ya, ri, bi + 1) {
                                let kk = choose|kk: int|
                                    0 <= kk < 2048 && (kk / 64 < ya + ri || (kk / 64 == ya + ri
                                        && kk % 64 < xa + bi + 1)) && draw_hit(v0, sp, xa, ya, kk);
                                if !(kk / 64 < ya + ri || (kk / 64 == ya + ri && kk % 64 < xa
                                    + bi)) {
                                    assert(kk == k as int);
                                    assert(false);
                                }
                                assert(collision_upto(v0, sp, xa, ya, ri, bi));
                            }
                        }
                    }
                    self.pixels.set(k, cur ^ bit);
                    proof {
                        assert(self@ =~= draw_upto(v0, sp, xa, ya, ri, bi + 1));
                    }
                } else {
                    proof {
                        assert(self@ =~= draw_upto(v0, sp, xa, ya, ri, bi + 1));
                        if collision_upto(v0, sp, xa, ya, ri, bi + 1) {
                            let kk = choose|kk: int|
                                0 <= kk < 2048 && (kk / 64 < ya + ri || (kk / 64 == ya + ri && kk
                                    % 64 < xa + bi + 1)) && draw_hit(v0, sp, xa, ya, kk);
                            assert(collision_upto(v0, sp, xa, ya, ri, bi));
                        }
                    }
                }
                b = b + 1;
            }
            proof {
                let ghost ri = r as int;
                assert(draw_upto(v0, sp, xa, ya, ri, 8) =~= draw_upto(v0, sp, xa, ya, ri + 1, 0));
                if collision_upto(v0, sp, xa, ya, ri, 8) {
                    let kk = choose|kk: int|
                        0 <= kk < 2048 && (kk / 64 < ya + ri || (kk / 64 == ya + ri && kk % 64 < xa
                            + 8)) && draw_hit(v0, sp, xa, ya, kk);
                    assert(collision_upto(v0, sp, xa, ya, ri + 1, 0));
                }
                if collision_upto(v0, sp, xa, ya, ri + 1, 0) {
                    let kk = choose|kk: int|
                        0 <= kk < 2048 && (kk / 64 < ya + ri + 1 || (kk / 64 == ya + ri + 1 && kk
                            % 64 < xa)) && draw_hit(v0, sp, xa, ya, kk);
                    assert(collision_upto(v0, sp, xa, ya, ri, 8));
                }
            }
            r = r + 1;
        }
        proof {
            let ghost ni = n as int;
            assert(draw_upto(v0, sp, xa, ya, ni, 0) =~= draw_video(v0, sp, xa, ya));
            if collision_upto(v0, sp, xa, ya, ni, 0) {
                let kk = choose|kk: int|
                    0 <= kk < 2048 && (kk / 64 < ya + ni || (kk / 64 == ya + ni && kk % 64 < xa))
                        && draw_hit(v0, sp, xa, ya, kk);
                assert(draw_collision(v0, sp, xa, ya));
            }
            if draw_collision(v0, sp, xa, ya) {
                let kk = choose|kk: int| 0 <= kk < 2048 && draw_hit(v0, sp, xa, ya, kk);
                assert(collision_upto(v0, sp, xa, ya, ni, 0));
            }
        }
        col
    }

    /// Read the pixel at column `x`, row `y`.
    pub fn get(&self, x: usize, y: usize) -> (r: bool)
        requires
            self.wf(),
            x < 64,
            y < 32,
        ensures
            r == self@[y * 64 + x],
    {
        self.pixels[y * 64 + x]
    }
}

/// Drawing is XOR and therefore self-inverse: drawing the same sprite at the
/// same anchor twice returns the frame to its state before the first draw.
pub proof fn lemma_draw_self_inverse(video: Seq<bool>, sprite: Seq<u8>, x0: int, y0: int)
    requires
        video.len() == 2048,
    ensures
        draw_video(draw_video(video, sprite, x0, y0), sprite, x0, y0) == video,
{
    assert(draw_video(draw_video(video, sprite, x0, y0), sprite, x0, y0) =~= video);
}

/// Clipping: a pixel that lies outside the sprite's footprint keeps its
/// value. In particular, when part of the sprite would fall right of column
/// 63 or below row 31, no pixel on the opposite edge changes: the sprite
/// never wraps around.
pub proof fn lemma_draw_clips(video: Seq<bool>, sprite: Seq<u8>, x0: int, y0: int, k: int)
    requires
        video.len() == 2048,
        0 <= k < 2048,
        !(x0 <= k % 64 < x0 + 8) || !(y0 <= k / 64 < y0 + sprite.len()),
    ensures
        draw_video(video, sprite, x0, y0)[k] == video[k],
{
}

impl View for FrameBuffer {
    type V = Seq<bool>;

    closed spec fn view(&self) -> Seq<bool> {
        self.pixels@
    }
}

} // verus!
