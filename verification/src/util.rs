//! Palettes, escape-code tables and the nearest-colour matcher.

use vstd::prelude::*;
use vstd::string::StringExecFns;
use crate::pixels::Rgb;

verus! {

/// Perceptual distance between a palette entry `c` and a target colour `t`:
/// 512 times the redmean approximation
/// `(2 + rm/256)*(c.r-t.r)^2 + 4*(c.g-t.g)^2 + (2 + (255-rm)/256)*(c.b-t.b)^2`
/// with `rm = (c.r + t.r)/2`. Scaling by 512 clears the denominators, so the
/// ordering of distances (and every tie) is exactly that of the formula.
pub open spec fn colour_distance(c: Rgb, t: Rgb) -> int {
    (1024 + c.r + t.r) * (c.r - t.r) * (c.r - t.r) + 2048 * (c.g - t.g) * (c.g - t.g) + (1534
        - c.r - t.r) * (c.b - t.b) * (c.b - t.b)
}

/// The index of the palette entry closest to `to`, ties broken towards the
/// lowest index.
pub open spec fn closest_in(to: Rgb, pal: Seq<Rgb>) -> int
    recommends
        pal.len() > 0,
    decreases pal.len(),
{
    if pal.len() <= 1 {
        0
    } else {
        let prev = closest_in(to, pal.drop_last());
        if colour_distance(pal.last(), to) < colour_distance(pal[prev], to) {
            pal.len() - 1
        } else {
            prev
        }
    }
}

/// A colour's distance to itself is zero.
pub proof fn lemma_colour_distance_self(c: Rgb)
    ensures
        colour_distance(c, c) == 0,
{
}

/// Distinct colours are strictly apart: every weight of the metric is
/// positive, so some term of the sum is.
pub proof fn lemma_colour_distance_positive(c: Rgb, t: Rgb)
    requires
        c != t,
    ensures
        colour_distance(c, t) > 0,
{
    let dr = c.r - t.r;
    let dg = c.g - t.g;
    let db = c.b - t.b;
    let wr = 1024 + c.r + t.r;
    let wb = 1534 - c.r - t.r;
    assert(wr * dr * dr >= 0 && (dr != 0 ==> wr * dr * dr > 0)) by (nonlinear_arith)
        requires
            wr >= 1024,
    ;
    assert(2048 * dg * dg >= 0 && (dg != 0 ==> 2048 * dg * dg > 0)) by (nonlinear_arith);
    assert(wb * db * db >= 0 && (db != 0 ==> wb * db * db > 0)) by (nonlinear_arith)
        requires
            wb >= 1024,
    ;
}

/// `closest_in` lands in the palette, at the first index whose distance is
/// minimal.
pub proof fn lemma_closest_in_min(to: Rgb, pal: Seq<Rgb>)
    requires
        pal.len() > 0,
    ensures
        0 <= closest_in(to, pal) < pal.len(),
        forall|j: int|
            0 <= j < pal.len() ==> colour_distance(pal[closest_in(to, pal)], to)
                <= colour_distance(#[trigger] pal[j], to),
        forall|j: int|
            0 <= j < closest_in(to, pal) ==> colour_distance(#[trigger] pal[j], to)
                > colour_distance(pal[closest_in(to, pal)], to),
    decreases pal.len(),
{
    if pal.len() > 1 {
        lemma_closest_in_min(to, pal.drop_last());
        assert(forall|j: int| 0 <= j < pal.len() - 1 ==> pal.drop_last()[j] == pal[j]);
    }
}

/// A palette colour matched against itself is its own closest match, provided
/// the palette holds no duplicate colours.
pub proof fn lemma_closest_colour_identity(pal: Seq<Rgb>, i: int)
    requires
        0 <= i < pal.len(),
        forall|j: int, k: int| 0 <= j < k < pal.len() ==> pal[j] != pal[k],
    ensures
        closest_in(pal[i], pal) == i,
{
    let r = closest_in(pal[i], pal);
    lemma_closest_in_min(pal[i], pal);
    lemma_colour_distance_self(pal[i]);
    if r != i {
        assert(pal[r] != pal[i]);
        lemma_colour_distance_positive(pal[r], pal[i]);
    }
}

/// Distance along the redmean metric, computed exactly in integers.
fn colour_distance_of(c: Rgb, t: Rgb) -> (d: i64)
    ensures
        d == colour_distance(c, t),
{
    let rsum = c.r as i64 + t.r as i64;
    let dr = c.r as i64 - t.r as i64;
    let dg = c.g as i64 - t.g as i64;
    let db = c.b as i64 - t.b as i64;
    proof {
        assert(0 <= dr * dr <= 65025 && 0 <= dg * dg <= 65025 && 0 <= db * db <= 65025)
            by (nonlinear_arith)
            requires
                -255 <= dr <= 255,
                -255 <= dg <= 255,
                -255 <= db <= 255,
        ;
        assert((1024 + rsum) * (dr * dr) <= 1534 * 65025 && (1024 + rsum) * (dr * dr) >= 0)
            by (nonlinear_arith)
            requires
                1024 <= 1024 + rsum <= 1534,
                0 <= dr * dr <= 65025,
        ;
        assert((1534 - rsum) * (db * db) <= 1534 * 65025 && (1534 - rsum) * (db * db) >= 0)
            by (nonlinear_arith)
            requires
                1024 <= 1534 - rsum <= 1534,
                0 <= db * db <= 65025,
        ;
        assert((1024 + rsum) * (dr * dr) == (1024 + c.r + t.r) * (c.r - t.r) * (c.r - t.r))
            by (nonlinear_arith)
            requires
                rsum == c.r + t.r,
                dr == c.r - t.r,
        ;
        assert((1534 - rsum) * (db * db) == (1534 - c.r - t.r) * (c.b - t.b) * (c.b - t.b))
            by (nonlinear_arith)
            requires
                rsum == c.r + t.r,
                db == c.b - t.b,
        ;
        assert(2048 * (dg * dg) == 2048 * (c.g - t.g) * (c.g - t.g)) by (nonlinear_arith)
            requires
                dg == c.g - t.g,
        ;
    }
    (1024 + rsum) * (dr * dr) + 2048 * (dg * dg) + (1534 - rsum) * (db * db)
}

/// Get the closest colour to the provided one out of the specified list of
/// colours and return its index.
///
/// A full scan keeping the first strict minimum, so ties go to the lowest
/// index.
pub fn closest_colour(to: Rgb, out_of: &[Rgb]) -> (r: usize)
    requires
        out_of@.len() > 0,
    ensures
        r == closest_in(to, out_of@),
        r < out_of@.len(),
{
    let n = out_of.len();
    let mut best: usize = 0;
    let mut best_d = colour_distance_of(out_of[0], to);
    let mut i: usize = 1;
    while i < n
        invariant
            1 <= i <= n,
            n == out_of@.len(),
            best < i,
            best == closest_in(to, out_of@.take(i as int)),
            best_d == colour_distance(out_of@[best as int], to),
        decreases n - i,
    {
        let d = colour_distance_of(out_of[i], to);
        proof {
            assert(out_of@.take(i + 1).drop_last() =~= out_of@.take(i as int));
            assert(out_of@.take(i + 1).last() == out_of@[i as int]);
            assert(out_of@.take(i + 1)[best as int] == out_of@[best as int]);
        }
        if d < best_d {
            best = i;
            best_d = d;
        }
        i = i + 1;
    }
    proof {
        assert(out_of@.take(n as int) =~= out_of@);
    }
    best
}

/// Get the background colour set for the specified foreground colour set:
/// its first 8 entries, since background escapes only cover 8 colours.
pub fn bg_colours_for(foreground_colours: &[Rgb]) -> (r: &[Rgb])
    requires
        foreground_colours@.len() >= 8,
    ensures
        r@ == foreground_colours@.take(8),
{
    let r = vstd::slice::slice_subrange(foreground_colours, 0, 8);
    proof {
        assert(foreground_colours@.subrange(0, 8) =~= foreground_colours@.take(8));
    }
    r
}

/// ANSI colours for a white-background terminal, in the same order as the
/// foreground escapes.
pub open spec fn white_bg_palette() -> Seq<Rgb> {
    seq![
        (Rgb { r: 0xEE, g: 0xE8, b: 0xD5 }),
        (Rgb { r: 0xDC, g: 0x32, b: 0x2F }),
        (Rgb { r: 0x85, g: 0x99, b: 0x00 }),
        (Rgb { r: 0xB5, g: 0x89, b: 0x00 }),
        (Rgb { r: 0x26, g: 0x8B, b: 0xD2 }),
        (Rgb { r: 0xD3, g: 0x36, b: 0x82 }),
        (Rgb { r: 0x2A, g: 0xA1, b: 0x98 }),
        (Rgb { r: 0x07, g: 0x36, b: 0x42 }),
        (Rgb { r: 0xFD, g: 0xF6, b: 0xE3 }),
        (Rgb { r: 0xCB, g: 0x4B, b: 0x16 }),
        (Rgb { r: 0x93, g: 0xA1, b: 0xA1 }),
        (Rgb { r: 0x83, g: 0x94, b: 0x96 }),
        (Rgb { r: 0x65, g: 0x7B, b: 0x83 }),
        (Rgb { r: 0x6C, g: 0x71, b: 0xC4 }),
        (Rgb { r: 0x58, g: 0x6E, b: 0x75 }),
        (Rgb { r: 0x00, g: 0x2B, b: 0x36 }),
    ]
}

/// Linux-theme ANSI colours for a black-background terminal, in the same
/// order as the foreground escapes.
pub open spec fn black_bg_palette() -> Seq<Rgb> {
    seq![
        (Rgb { r: 0x00, g: 0x00, b: 0x00 }),
        (Rgb { r: 0xCD, g: 0x00, b: 0x00 }),
        (Rgb { r: 0x00, g: 0xCD, b: 0x00 }),
        (Rgb { r: 0xCD, g: 0xCD, b: 0x00 }),
        (Rgb { r: 0x00, g: 0x00, b: 0xEE }),
        (Rgb { r: 0xCD, g: 0x00, b: 0xCD }),
        (Rgb { r: 0x00, g: 0xCD, b: 0xCD }),
        (Rgb { r: 0xE6, g: 0xE6, b: 0xE6 }),
        (Rgb { r: 0x80, g: 0x80, b: 0x80 }),
        (Rgb { r: 0xFF, g: 0x00, b: 0x00 }),
        (Rgb { r: 0x00, g: 0xFF, b: 0x00 }),
        (Rgb { r: 0xFF, g: 0xFF, b: 0x00 }),
        (Rgb { r: 0x5C, g: 0x5C, b: 0xFF }),
        (Rgb { r: 0xFF, g: 0x00, b: 0xFF }),
        (Rgb { r: 0x00, g: 0xFF, b: 0xFF }),
        (Rgb { r: 0xFF, g: 0xFF, b: 0xFF }),
    ]
}

/// ANSI colours for a white-background terminal.
pub fn ansi_colours_white_bg() -> (r: Vec<Rgb>)
    ensures
        r@ == white_bg_palette(),
{
    let mut v: Vec<Rgb> = Vec::new();
    v.push(Rgb { r: 0xEE, g: 0xE8, b: 0xD5 });
    v.push(Rgb { r: 0xDC, g: 0x32, b: 0x2F });
    v.push(Rgb { r: 0x85, g: 0x99, b: 0x00 });
    v.push(Rgb { r: 0xB5, g: 0x89, b: 0x00 });
    v.push(Rgb { r: 0x26, g: 0x8B, b: 0xD2 });
    v.push(Rgb { r: 0xD3, g: 0x36, b: 0x82 });
    v.push(Rgb { r: 0x2A, g: 0xA1, b: 0x98 });
    v.push(Rgb { r: 0x07, g: 0x36, b: 0x42 });
    v.push(Rgb { r: 0xFD, g: 0xF6, b: 0xE3 });
    v.push(Rgb { r: 0xCB, g: 0x4B, b: 0x16 });
    v.push(Rgb { r: 0x93, g: 0xA1, b: 0xA1 });
    v.push(Rgb { r: 0x83, g: 0x94, b: 0x96 });
    v.push(Rgb { r: 0x65, g: 0x7B, b: 0x83 });
    v.push(Rgb { r: 0x6C, g: 0x71, b: 0xC4 });
    v.push(Rgb { r: 0x58, g: 0x6E, b: 0x75 });
    v.push(Rgb { r: 0x00, g: 0x2B, b: 0x36 });
    proof {
        assert(v@ =~= white_bg_palette());
    }
    v
}

/// Linux-theme ANSI colours for a black-background terminal.
pub fn ansi_colours_black_bg() -> (r: Vec<Rgb>)
    ensures
        r@ == black_bg_palette(),
{
    let mut v: Vec<Rgb> = Vec::new();
    v.push(Rgb { r: 0x00, g: 0x00, b: 0x00 });
    v.push(Rgb { r: 0xCD, g: 0x00, b: 0x00 });
    v.push(Rgb { r: 0x00, g: 0xCD, b: 0x00 });
    v.push(Rgb { r: 0xCD, g: 0xCD, b: 0x00 });
    v.push(Rgb { r: 0x00, g: 0x00, b: 0xEE });
    v.push(Rgb { r: 0xCD, g: 0x00, b: 0xCD });
    v.push(Rgb { r: 0x00, g: 0xCD, b: 0xCD });
    v.push(Rgb { r: 0xE6, g: 0xE6, b: 0xE6 });
    v.push(Rgb { r: 0x80, g: 0x80, b: 0x80 });
    v.push(Rgb { r: 0xFF, g: 0x00, b: 0x00 });
    v.push(Rgb { r: 0x00, g: 0xFF, b: 0x00 });
    v.push(Rgb { r: 0xFF, g: 0xFF, b: 0x00 });
    v.push(Rgb { r: 0x5C, g: 0x5C, b: 0xFF });
    v.push(Rgb { r: 0xFF, g: 0x00, b: 0xFF });
    v.push(Rgb { r: 0x00, g: 0xFF, b: 0xFF });
    v.push(Rgb { r: 0xFF, g: 0xFF, b: 0xFF });
    proof {
        assert(v@ =~= black_bg_palette());
    }
    v
}

/// The ANSI foreground colour escape keyed by a palette index: SGR codes
/// 30-37, the first 8 normal (`0;`), the next 8 bold (`1;`).
pub open spec fn fg_escape(i: int) -> Seq<char> {
    if i == 0 {
        "\x1B[0;30m"@
    } else if i == 1 {
        "\x1B[0;31m"@
    } else if i == 2 {
        "\x1B[0;32m"@
    } else if i == 3 {
        "\x1B[0;33m"@
    } else if i == 4 {
        "\x1B[0;34m"@
    } else if i == 5 {
        "\x1B[0;35m"@
    } else if i == 6 {
        "\x1B[0;36m"@
    } else if i == 7 {
        "\x1B[0;37m"@
    } else if i == 8 {
        "\x1B[1;30m"@
    } else if i == 9 {
        "\x1B[1;31m"@
    } else if i == 10 {
        "\x1B[1;32m"@
    } else if i == 11 {
        "\x1B[1;33m"@
    } else if i == 12 {
        "\x1B[1;34m"@
    } else if i == 13 {
        "\x1B[1;35m"@
    } else if i == 14 {
        "\x1B[1;36m"@
    } else {
        "\x1B[1;37m"@
    }
}

/// The ANSI background colour escape keyed by a palette index: SGR codes
/// 40-47.
pub open spec fn bg_escape(i: int) -> Seq<char> {
    if i == 0 {
        "\x1B[40m"@
    } else if i == 1 {
        "\x1B[41m"@
    } else if i == 2 {
        "\x1B[42m"@
    } else if i == 3 {
        "\x1B[43m"@
    } else if i == 4 {
        "\x1B[44m"@
    } else if i == 5 {
        "\x1B[45m"@
    } else if i == 6 {
        "\x1B[46m"@
    } else {
        "\x1B[47m"@
    }
}

/// ANSI foreground colour escapes, one per palette index.
pub fn ansi_colour_escape(i: usize) -> (r: &'static str)
    requires
        i < 16,
    ensures
        r@ == fg_escape(i as int),
{
    if i == 0 {
        "\x1B[0;30m"
    } else if i == 1 {
        "\x1B[0;31m"
    } else if i == 2 {
        "\x1B[0;32m"
    } else if i == 3 {
        "\x1B[0;33m"
    } else if i == 4 {
        "\x1B[0;34m"
    } else if i == 5 {
        "\x1B[0;35m"
    } else if i == 6 {
        "\x1B[0;36m"
    } else if i == 7 {
        "\x1B[0;37m"
    } else if i == 8 {
        "\x1B[1;30m"
    } else if i == 9 {
        "\x1B[1;31m"
    } else if i == 10 {
        "\x1B[1;32m"
    } else if i == 11 {
        "\x1B[1;33m"
    } else if i == 12 {
        "\x1B[1;34m"
    } else if i == 13 {
        "\x1B[1;35m"
    } else if i == 14 {
        "\x1B[1;36m"
    } else {
        "\x1B[1;37m"
    }
}

/// ANSI background colour escapes, one per palette index.
pub fn ansi_bg_colour_escape(i: usize) -> (r: &'static str)
    requires
        i < 8,
    ensures
        r@ == bg_escape(i as int),
{
    if i == 0 {
        "\x1B[40m"
    } else if i == 1 {
        "\x1B[41m"
    } else if i == 2 {
        "\x1B[42m"
    } else if i == 3 {
        "\x1B[43m"
    } else if i == 4 {
        "\x1B[44m"
    } else if i == 5 {
        "\x1B[45m"
    } else if i == 6 {
        "\x1B[46m"
    } else {
        "\x1B[47m"
    }
}

/// Reset ANSI attributes.
pub fn ansi_reset_attributes() -> (r: &'static str)
    ensures
        r@ == "\x1B[0m"@,
{
    "\x1B[0m"
}

/// Create a string consisting of `n` repetitions of `what`.
pub open spec fn str_repeat(s: Seq<char>, n: int) -> Seq<char>
    decreases n,
{
    if n <= 0 {
        Seq::empty()
    } else {
        str_repeat(s, n - 1) + s
    }
}

/// Create a string consisting of `n` repetitions of `what`.
pub fn mul_str(what: &str, n: usize) -> (r: String)
    ensures
        r@ == str_repeat(what@, n as int),
{
    let mut r = String::new();
    let mut i: usize = 0;
    while i < n
        invariant
            i <= n,
            r@ == str_repeat(what@, i as int),
        decreases n - i,
    {
        r.append(what);
        i = i + 1;
    }
    r
}

} // verus!
