use vstd::prelude::*;

use image::DynamicImage;

use crate::base::Color;
use crate::frame::{image_is_rgba8, image_pixels, new_rgba8, put_pixel};

verus! {

/// How many rays deep a chain of reflections may go: a reflection that would
/// be traced at this depth or deeper shows the sky instead.
pub const MAX_RECURSION_DEPTH: u32 = 5;

/// The RGBA value of the sky, shown wherever a ray hits nothing.
pub const SKY_COLOR: [u8; 4] = [128, 128, 255, 255];

/// The sign bit of an `f64` bit pattern.
pub const SIGN_BIT: u64 = 0x8000_0000_0000_0000;

/// IEEE-754 total order on the bit patterns of two `f64` values: a negative
/// value lies below a positive one, positives rise with their magnitude and
/// negatives fall with theirs.
pub open spec fn total_le(a: u64, b: u64) -> bool {
    let neg_a = a >= SIGN_BIT;
    let neg_b = b >= SIGN_BIT;
    if neg_a != neg_b {
        neg_a
    } else if neg_a {
        b <= a
    } else {
        a <= b
    }
}

/// The key of a distance whose `f64` bit pattern is `bits`.
pub open spec fn key_of(bits: u64) -> u64 {
    if bits >= SIGN_BIT {
        !bits
    } else {
        bits | SIGN_BIT
    }
}

/// Turns the bit pattern of an `f64` distance into a key whose unsigned order
/// is the total order of the distances.
pub fn distance_key(bits: u64) -> (k: u64)
    ensures
        k == key_of(bits),
{
    if bits >> 63u64 == 1 {
        assert(bits >= SIGN_BIT) by (bit_vector)
            requires
                bits >> 63u64 == 1,
        ;
        !bits
    } else {
        assert(bits < SIGN_BIT) by (bit_vector)
            requires
                bits >> 63u64 != 1,
        ;
        bits | SIGN_BIT
    }
}

/// Keys compare as the distances do in total order, and two distances share a
/// key only when their bit patterns are equal.
pub proof fn lemma_distance_key_order(a: u64, b: u64)
    ensures
        (key_of(a) <= key_of(b)) == total_le(a, b),
        (key_of(a) == key_of(b)) == (a == b),
{
    assert(((if a >= 0x8000_0000_0000_0000u64 {
        !a
    } else {
        a | 0x8000_0000_0000_0000u64
    }) <= (if b >= 0x8000_0000_0000_0000u64 {
        !b
    } else {
        b | 0x8000_0000_0000_0000u64
    })) == (if (a >= 0x8000_0000_0000_0000u64) != (b >= 0x8000_0000_0000_0000u64) {
        a >= 0x8000_0000_0000_0000u64
    } else if a >= 0x8000_0000_0000_0000u64 {
        b <= a
    } else {
        a <= b
    })) by (bit_vector);
    assert(((if a >= 0x8000_0000_0000_0000u64 {
        !a
    } else {
        a | 0x8000_0000_0000_0000u64
    }) == (if b >= 0x8000_0000_0000_0000u64 {
        !b
    } else {
        b | 0x8000_0000_0000_0000u64
    })) == (a == b)) by (bit_vector);
}

/// The key of the distance `-0.0`, the nearest at which a hit counts.
pub const NEAREST_KEY: u64 = 0x7fff_ffff_ffff_ffff;

/// The key of the distance `+inf`, the farthest at which a hit counts.
pub const FARTHEST_KEY: u64 = 0xfff0_0000_0000_0000;

/// Whether a hit at the distance whose key is `k` counts.
pub open spec fn counts(k: u64) -> bool {
    NEAREST_KEY <= k <= FARTHEST_KEY
}

/// Whether `bits` is the pattern of an `f64` that is `>= 0.0`: a zero of
/// either sign, or a positive number up to infinity (no NaN).
pub open spec fn is_non_negative(bits: u64) -> bool {
    bits <= 0x7ff0_0000_0000_0000 || bits == SIGN_BIT
}

/// A hit counts exactly when its distance is `>= 0.0`.
pub proof fn lemma_counts_non_negative(bits: u64)
    ensures
        counts(key_of(bits)) == is_non_negative(bits),
{
    assert((0x7fff_ffff_ffff_ffffu64 <= (if bits >= 0x8000_0000_0000_0000u64 {
        !bits
    } else {
        bits | 0x8000_0000_0000_0000u64
    }) && (if bits >= 0x8000_0000_0000_0000u64 {
        !bits
    } else {
        bits | 0x8000_0000_0000_0000u64
    }) <= 0xfff0_0000_0000_0000u64) == (bits <= 0x7ff0_0000_0000_0000u64 || bits
        == 0x8000_0000_0000_0000u64)) by (bit_vector);
}

/// Whether the `j`-th entry is a hit that counts.
pub open spec fn counted(hits: Seq<Option<u64>>, j: int) -> bool {
    hits[j] matches Some(k) && counts(k)
}

/// Whether some primitive was hit at a distance that counts.
pub open spec fn any_hit(hits: Seq<Option<u64>>) -> bool {
    exists|j: int| 0 <= j < hits.len() && counted(hits, j)
}

/// Whether `i` is the first of the nearest hits: its hit counts, no counted
/// hit has a key below its own, and every earlier counted hit lies strictly
/// behind it.
pub open spec fn is_nearest(hits: Seq<Option<u64>>, i: int) -> bool {
    &&& 0 <= i < hits.len()
    &&& counted(hits, i)
    &&& forall|j: int| 0 <= j < hits.len() && counted(hits, j) ==> hits[i].unwrap() <= hits[j].unwrap()
    &&& forall|j: int| 0 <= j < i && counted(hits, j) ==> hits[i].unwrap() < hits[j].unwrap()
}

/// The nearest-hit search: given, for each primitive of a scene, the key of
/// the distance at which a ray hits it (`None` where it misses), picks among
/// the hits that count (distance `>= 0.0`) the one with the least key, the
/// first among equals; `None` when no hit counts.
pub fn nearest_hit(hits: &Vec<Option<u64>>) -> (r: Option<usize>)
    ensures
        r.is_none() <==> !any_hit(hits@),
        r matches Some(i) ==> is_nearest(hits@, i as int),
{
    let mut best: Option<usize> = None;
    let mut i: usize = 0;
    while i < hits.len()
        invariant
            i <= hits@.len(),
            best.is_none() <==> !any_hit(hits@.take(i as int)),
            best matches Some(b) ==> is_nearest(hits@.take(i as int), b as int),
        decreases hits@.len() - i,
    {
        let ghost prefix = hits@.take(i as int);
        let ghost next = hits@.take(i + 1);
        assert(next == prefix.push(hits@[i as int]));
        assert(forall|j: int| 0 <= j < i ==> counted(next, j) == counted(prefix, j));
        proof {
            if counted(next, i as int) {
                assert(any_hit(next));
            } else {
                assert(any_hit(next) ==> any_hit(prefix));
            }
        }
        if let Some(k) = hits[i] {
            if NEAREST_KEY <= k && k <= FARTHEST_KEY {
                match best {
                    None => {
                        best = Some(i);
                    },
                    Some(b) => {
                        if k < hits[b].unwrap() {
                            best = Some(i);
                        }
                    },
                }
            }
        }
        i = i + 1;
    }
    assert(hits@.take(hits@.len() as int) == hits@);
    best
}

/// Whether a surface point is lit by a light at the distance whose key is
/// `light`, given the key of the nearest hit of its shadow ray (`None` where
/// that ray hits nothing): only a hit no farther than the light casts a shadow.
pub open spec fn lit(shadow: Option<u64>, light: u64) -> bool {
    match shadow {
        None => true,
        Some(k) => k > light,
    }
}

/// The shadow test of a surface point and a light; see [`lit`].
pub fn is_lit(shadow: Option<u64>, light: u64) -> (r: bool)
    ensures
        r == lit(shadow, light),
{
    match shadow {
        None => true,
        Some(k) => k > light,
    }
}

/// An object between a surface point and a light shades the point: when the
/// shadow ray hits some primitive at a distance `occluder` (as `f64` bits)
/// that is `>= 0.0` and no farther than the distance `light` to the light, then
/// the nearest-hit search finds a hit, and whichever nearest hit it returns,
/// the shadow test finds the point unlit.
pub proof fn lemma_occluder_casts_shadow(hits: Seq<Option<u64>>, j: int, occluder: u64, light: u64)
    requires
        0 <= j < hits.len(),
        hits[j] == Some(key_of(occluder)),
        is_non_negative(occluder),
        total_le(occluder, light),
    ensures
        any_hit(hits),
        forall|i: int| is_nearest(hits, i) ==> !lit(Some(hits[i].unwrap()), key_of(light)),
{
    lemma_counts_non_negative(occluder);
    lemma_distance_key_order(occluder, light);
    assert(counted(hits, j));
    assert forall|i: int| is_nearest(hits, i) implies !lit(Some(hits[i].unwrap()), key_of(light)) by {
        assert(hits[i].unwrap() <= hits[j].unwrap());
    }
}

/// Whether a ray at `depth` is traced; deeper rays show the sky.
pub fn is_traced(depth: u32) -> (r: bool)
    ensures
        r == (depth < MAX_RECURSION_DEPTH),
{
    depth < MAX_RECURSION_DEPTH
}

/// How many more reflections may be traced from a ray at `depth`.
pub open spec fn reflections_left(depth: u32) -> nat {
    if depth < MAX_RECURSION_DEPTH {
        (MAX_RECURSION_DEPTH - depth) as nat
    } else {
        0
    }
}

/// Reflections end: every ray that is traced leaves fewer reflections to its
/// reflected ray one level deeper, and none is traced once none are left.
pub proof fn lemma_reflections_end(depth: u32)
    ensures
        depth < MAX_RECURSION_DEPTH ==> reflections_left((depth + 1) as u32) < reflections_left(depth),
        reflections_left(depth) == 0 ==> depth >= MAX_RECURSION_DEPTH,
{
}

/// The sky as an RGBA sequence.
pub open spec fn sky_rgba() -> Seq<u8> {
    seq![128u8, 128u8, 255u8, 255u8]
}

/// The opaque RGBA value of a colour.
pub open spec fn rgba_of(c: Color) -> Seq<u8> {
    seq![c@.0, c@.1, c@.2, 255u8]
}

/// The RGBA value of a pixel whose primary ray was shaded to `shade`, or hit
/// nothing (`None`).
pub open spec fn pixel_rgba(shade: Option<Color>) -> Seq<u8> {
    match shade {
        Some(c) => rgba_of(c),
        None => sky_rgba(),
    }
}

/// The opaque RGBA value of a colour.
pub fn to_rgba(col: &Color) -> (r: [u8; 4])
    ensures
        r@ == rgba_of(*col),
{
    let rgb = col.get();
    [rgb[0], rgb[1], rgb[2], 255]
}

fn pixel_value(shade: &Option<Color>) -> (r: [u8; 4])
    ensures
        r@ == pixel_rgba(*shade),
{
    match shade {
        Some(c) => to_rgba(c),
        None => {
            let sky = SKY_COLOR;
            assert(sky@ == sky_rgba());
            sky
        },
    }
}

/// The picture of a `width` × `height` render whose pixel `(x, y)` was shaded
/// to `shades[x * height + y]` (columns one after another).
pub open spec fn painted(width: u32, height: u32, shades: Seq<Option<Color>>) -> Map<
    (u32, u32),
    Seq<u8>,
> {
    Map::new(
        |p: (u32, u32)| p.0 < width && p.1 < height,
        |p: (u32, u32)| pixel_rgba(shades[p.0 * height + p.1]),
    )
}

/// Paints a `width` × `height` RGBA picture from the shading of each pixel's
/// primary ray, given column after column: pixel `(x, y)` takes
/// `shades[x * height + y]`, opaque, or the sky where that ray hit nothing.
pub fn paint(width: u32, height: u32, shades: &Vec<Option<Color>>) -> (img: DynamicImage)
    requires
        shades@.len() == width * height,
        4 * (width as int) <= usize::MAX,
        4 * (width as int) * (height as int) <= usize::MAX,
    ensures
        image_is_rgba8(img),
        image_pixels(img) == painted(width, height, shades@),
{
    let mut img = new_rgba8(width, height);
    let ghost target = painted(width, height, shades@);
    let mut x: u32 = 0;
    while x < width
        invariant
            x <= width,
            shades@.len() == width * height,
            4 * (width as int) <= usize::MAX,
            4 * (width as int) * (height as int) <= usize::MAX,
            target == painted(width, height, shades@),
            image_is_rgba8(img),
            image_pixels(img).dom() == target.dom(),
            forall|p: (u32, u32)|
                #![trigger image_pixels(img)[p]]
                p.0 < x && p.1 < height ==> image_pixels(img)[p] == target[p],
        decreases width - x,
    {
        let mut y: u32 = 0;
        while y < height
            invariant
                x < width,
                y <= height,
                shades@.len() == width * height,
                4 * (width as int) <= usize::MAX,
                4 * (width as int) * (height as int) <= usize::MAX,
                target == painted(width, height, shades@),
                image_is_rgba8(img),
                image_pixels(img).dom() == target.dom(),
                forall|p: (u32, u32)|
                    #![trigger image_pixels(img)[p]]
                    (p.0 < x || (p.0 == x && p.1 < y)) && p.1 < height ==> image_pixels(img)[p]
                        == target[p],
            decreases height - y,
        {
            proof {
                assert(x * height + y < width * height && width * height <= usize::MAX)
                    by (nonlinear_arith)
                    requires
                        x < width,
                        y < height,
                        4 * (width as int) * (height as int) <= usize::MAX,
                ;
            }
            let i = x as usize * height as usize + y as usize;
            let px = pixel_value(&shades[i]);
            assert(target.contains_key((x, y)));
            put_pixel(&mut img, x, y, px);
            y = y + 1;
        }
        x = x + 1;
    }
    assert(image_pixels(img) =~= target);
    img
}

} // verus!
