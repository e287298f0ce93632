//! The star field of the desktop wallpaper: 350 stars placed by a linear
//! congruential generator, some with a faint halo.
use vstd::prelude::*;
use crate::canvas::{Canvas, Rgb, blend};

verus! {

/// Seed the star field starts from.
pub const STAR_SEED: u32 = 0xDEAD_C0DE;

/// Number of stars.
pub const STAR_COUNT: u32 = 350;

/// One step of the generator: `s * 1664525 + 1013904223` modulo 2^32.
pub open spec fn lcg_next(s: u32) -> u32 {
    ((s as nat * 1664525 + 1013904223) % 0x1_0000_0000) as u32
}

/// The generator's value after `n` steps from `STAR_SEED`.
pub open spec fn seed_at(n: nat) -> u32
    decreases n,
{
    if n == 0 {
        STAR_SEED
    } else {
        lcg_next(seed_at((n - 1) as nat))
    }
}

/// Star `k` on a `w x h` screen, from the generator's values `3k+1`, `3k+2`
/// and `3k+3`: its column (first value's bits from 15, modulo `w`), its row
/// (second value, modulo `|h - 60|`, as Rust's `%` by `h - 60` gives), its brightness (80 plus the third
/// value's top byte modulo 175) and whether it has a halo (bits 18 to 20 of
/// the third value all clear).
pub open spec fn star(k: nat, w: int, h: int) -> (int, int, u8, bool) {
    let s1 = seed_at(3 * k + 1);
    let s2 = seed_at(3 * k + 2);
    let s3 = seed_at(3 * k + 3);
    (
        (s1 >> 15u32) as int % w,
        (s2 >> 15u32) as int % row_modulus(h),
        (80 + ((s3 >> 24u32) as u8) % 175) as u8,
        (s3 >> 18u32) & 7 == 0,
    )
}

/// `|h - 60|`: the rows a star can take on a screen `h` high.
pub open spec fn row_modulus(h: int) -> int {
    if h > 60 {
        h - 60
    } else {
        60 - h
    }
}

/// Pixel `(px, py)`, previously `p`, once the star `st` is drawn: the star's
/// own pixel takes its brightness; with a halo, its four neighbors get it
/// blended in at opacity 50.
pub open spec fn with_star(p: Rgb, px: int, py: int, st: (int, int, u8, bool)) -> Rgb {
    let (sx, sy, b, halo) = st;
    if px == sx && py == sy {
        (b, b, b)
    } else if halo && ((py == sy && (px == sx - 1 || px == sx + 1)) || (px == sx && (py == sy - 1
        || py == sy + 1))) {
        blend((b, b, b), p, 50)
    } else {
        p
    }
}

/// Pixel `(px, py)`, previously `p`, once the first `n` stars of a `w x h`
/// screen are drawn, in order.
pub open spec fn starry(p: Rgb, px: int, py: int, n: nat, w: int, h: int) -> Rgb
    decreases n,
{
    if n == 0 {
        p
    } else {
        with_star(starry(p, px, py, (n - 1) as nat, w, h), px, py, star((n - 1) as nat, w, h))
    }
}

/// One step of the generator (see `lcg_next`).
fn lcg_step(s: u32) -> (r: u32)
    ensures
        r == lcg_next(s),
{
    let v: u64 = (s as u64) * 1664525 + 1013904223;
    (v % 0x1_0000_0000) as u32
}

/// The star that the generator values after `seed` give on a `sw x sh`
/// screen (see `star`), and the generator's value after them.
fn next_star(seed: u32, sw: i32, sh: i32) -> (r: ((i32, i32, u8, bool), u32))
    requires
        sw >= 1,
        0 <= sh,
        sh != 60,
    ensures
        ({
            let s1 = lcg_next(seed);
            let s2 = lcg_next(s1);
            let s3 = lcg_next(s2);
            &&& r.0.0 == (s1 >> 15u32) as int % sw as int
            &&& r.0.1 == (s2 >> 15u32) as int % row_modulus(sh as int)
            &&& r.0.2 == (80 + ((s3 >> 24u32) as u8) % 175) as u8
            &&& r.0.3 == ((s3 >> 18u32) & 7 == 0)
            &&& r.1 == s3
        }),
{
    let s1 = lcg_step(seed);
    let t1 = s1 >> 15;
    assert(t1 < 0x20000) by (bit_vector)
        requires
            t1 == s1 >> 15u32,
    ;
    let sx = (t1 as i32) % sw;
    let s2 = lcg_step(s1);
    let t2 = s2 >> 15;
    assert(t2 < 0x20000) by (bit_vector)
        requires
            t2 == s2 >> 15u32,
    ;
    let rows = if sh > 60 { sh - 60 } else { 60 - sh };
    let sy = (t2 as i32) % rows;
    let s3 = lcg_step(s2);
    let t3 = s3 >> 24;
    assert(t3 < 0x100) by (bit_vector)
        requires
            t3 == s3 >> 24u32,
    ;
    let b = (t3 as u8) % 175;
    let bright: u8 = 80 + b;
    let halo = (s3 >> 18) & 7 == 0;
    ((sx, sy, bright, halo), s3)
}

/// Draws one star (see `with_star`).
fn draw_star(canvas: &mut Canvas, sx: i32, sy: i32, bright: u8, halo: bool)
    requires
        i32::MIN < sx < i32::MAX,
        i32::MIN < sy < i32::MAX,
    ensures
        final(canvas).same_shape(old(canvas)),
        forall|px: int, py: int|
            final(canvas).in_bounds(px, py) ==> #[trigger] final(canvas).pixel(px, py) == with_star(
                old(canvas).pixel(px, py),
                px,
                py,
                (sx as int, sy as int, bright, halo),
            ),
{
    canvas.draw_pixel(sx, sy, bright, bright, bright);
    if halo {
        canvas.draw_pixel_alpha(sx - 1, sy, bright, bright, bright, 50);
        canvas.draw_pixel_alpha(sx + 1, sy, bright, bright, bright, 50);
        canvas.draw_pixel_alpha(sx, sy - 1, bright, bright, bright, 50);
        canvas.draw_pixel_alpha(sx, sy + 1, bright, bright, bright, 50);
    }
}

/// Draws the wallpaper's 350 stars (see `starry`) on a canvas at least 1
/// pixel wide and not 60 high.
pub fn draw_star_field(canvas: &mut Canvas)
    requires
        old(canvas).spec_width() >= 1,
        old(canvas).spec_height() != 60,
    ensures
        final(canvas).same_shape(old(canvas)),
        forall|px: int, py: int|
            final(canvas).in_bounds(px, py) ==> #[trigger] final(canvas).pixel(px, py) == starry(
                old(canvas).pixel(px, py),
                px,
                py,
                STAR_COUNT as nat,
                old(canvas).spec_width(),
                old(canvas).spec_height(),
            ),
{
    let ghost start = *canvas;
    let sw = canvas.width();
    let sh = canvas.height();
    let mut seed: u32 = STAR_SEED;
    let mut k: u32 = 0;
    while k < STAR_COUNT
        invariant
            k <= STAR_COUNT,
            sw == start.spec_width(),
            sh == start.spec_height(),
            sw >= 1,
            0 <= sh,
            sh != 60,
            canvas.same_shape(&start),
            seed == seed_at(3 * k as nat),
            forall|px: int, py: int|
                canvas.in_bounds(px, py) ==> #[trigger] canvas.pixel(px, py) == starry(
                    start.pixel(px, py),
                    px,
                    py,
                    k as nat,
                    sw as int,
                    sh as int,
                ),
        decreases STAR_COUNT - k,
    {
        let ghost before = *canvas;
        let (st, next) = next_star(seed, sw, sh);
        proof {
            let n = 3 * k as nat;
            assert(seed_at(n + 1) == lcg_next(seed_at(n)));
            assert(seed_at(n + 2) == lcg_next(seed_at(n + 1)));
            assert(seed_at(n + 3) == lcg_next(seed_at(n + 2)));
            assert(3 * (k + 1) as nat == n + 3);
            assert(st.0 as int == star(k as nat, sw as int, sh as int).0);
        }
        let (sx, sy, bright, halo) = st;
        proof {
            assert(0 <= sx < sw);
            assert(0 <= sy);
        }
        draw_star(canvas, sx, sy, bright, halo);
        seed = next;
        k = k + 1;
    }
}

} // verus!
