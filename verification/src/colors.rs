//! Choosing the plain terminal color nearest to a true color, for
//! terminals without full color support.  Only the choice is made here;
//! rendering belongs to the caller.

use vstd::prelude::*;

verus! {

/// The sixteen colors a plain terminal offers, at the RGB values they are
/// conventionally rendered with: the eight normal colors, then the eight
/// bright ones.
pub open spec fn palette() -> Seq<(u8, u8, u8)> {
    seq![
        (0u8, 0u8, 0u8),
        (205u8, 0u8, 0u8),
        (0u8, 205u8, 0u8),
        (205u8, 205u8, 0u8),
        (0u8, 0u8, 238u8),
        (205u8, 0u8, 205u8),
        (0u8, 205u8, 205u8),
        (229u8, 229u8, 229u8),
        (127u8, 127u8, 127u8),
        (255u8, 0u8, 0u8),
        (0u8, 255u8, 0u8),
        (255u8, 255u8, 0u8),
        (92u8, 92u8, 255u8),
        (255u8, 0u8, 255u8),
        (0u8, 255u8, 255u8),
        (255u8, 255u8, 255u8),
    ]
}

/// The squared Euclidean distance between a palette entry and a color.
pub open spec fn color_distance(p: (u8, u8, u8), red: u8, green: u8, blue: u8) -> int {
    (p.0 - red) * (p.0 - red) + (p.1 - green) * (p.1 - green) + (p.2 - blue) * (p.2 - blue)
}

fn squared_diff(a: u8, b: u8) -> (r: i32)
    ensures
        r == (a - b) * (a - b),
        0 <= r <= 65025,
{
    let d: i32 = a as i32 - b as i32;
    proof {
        assert(d * d == (a - b) * (a - b) && 0 <= d * d <= 65025) by (nonlinear_arith)
            requires
                d == a - b,
                -255 <= d <= 255,
        ;
    }
    d * d
}

fn distance_to(p: (u8, u8, u8), red: u8, green: u8, blue: u8) -> (r: i32)
    ensures
        r == color_distance(p, red, green, blue),
        0 <= r,
{
    squared_diff(p.0, red) + squared_diff(p.1, green) + squared_diff(p.2, blue)
}

/// The palette position nearest to the given color: no entry lies strictly
/// closer, and among equally close entries the earliest wins.
pub fn closest_terminal_color(red: u8, green: u8, blue: u8) -> (r: usize)
    ensures
        r < palette().len(),
        forall|j: int| 0 <= j < palette().len() ==> color_distance(palette()[r as int], red, green, blue)
            <= color_distance(#[trigger] palette()[j], red, green, blue),
        forall|j: int| 0 <= j < r ==> color_distance(palette()[r as int], red, green, blue)
            < color_distance(#[trigger] palette()[j], red, green, blue),
{
    let mut entries: Vec<(u8, u8, u8)> = Vec::new();
    entries.push((0u8, 0u8, 0u8));
    entries.push((205u8, 0u8, 0u8));
    entries.push((0u8, 205u8, 0u8));
    entries.push((205u8, 205u8, 0u8));
    entries.push((0u8, 0u8, 238u8));
    entries.push((205u8, 0u8, 205u8));
    entries.push((0u8, 205u8, 205u8));
    entries.push((229u8, 229u8, 229u8));
    entries.push((127u8, 127u8, 127u8));
    entries.push((255u8, 0u8, 0u8));
    entries.push((0u8, 255u8, 0u8));
    entries.push((255u8, 255u8, 0u8));
    entries.push((92u8, 92u8, 255u8));
    entries.push((255u8, 0u8, 255u8));
    entries.push((0u8, 255u8, 255u8));
    entries.push((255u8, 255u8, 255u8));
    proof {
        assert(entries@ =~= palette());
    }
    let mut best: usize = 0;
    let mut best_d = distance_to(entries[0], red, green, blue);
    let mut j: usize = 1;
    while j < entries.len()
        invariant
            entries@ =~= palette(),
            1 <= j <= entries@.len(),
            best < j,
            best_d == color_distance(palette()[best as int], red, green, blue),
            forall|k: int| 0 <= k < j ==> best_d <= color_distance(
                #[trigger] palette()[k],
                red,
                green,
                blue,
            ),
            forall|k: int| 0 <= k < best ==> best_d < color_distance(
                #[trigger] palette()[k],
                red,
                green,
                blue,
            ),
        decreases entries@.len() - j,
    {
        let d = distance_to(entries[j], red, green, blue);
        if d < best_d {
            best = j;
            best_d = d;
        }
        j = j + 1;
    }
    best
}

} // verus!
