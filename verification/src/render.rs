//! The order in which pixels are rendered, and the text of a plain pixmap.

use crate::math::Color;
use crate::scene::Image;
use vstd::prelude::*;

verus! {

/// The place in the rendered sequence of the pixel in column `i` and in row
/// `j` counted from the bottom: rows run from the top of the picture to its
/// bottom, and each row from left to right.
pub open spec fn spec_place(image: Image, i: int, j: int) -> int {
    (image.height - 1 - j) * image.width + i
}

/// Whether the picture has a pixel in column `i` and row `j`.
pub open spec fn in_picture(image: Image, i: int, j: int) -> bool {
    0 <= i < image.width && 0 <= j < image.height
}

/// The place in the rendered sequence of the pixel in column `i` and in row
/// `j` counted from the bottom; none outside the picture, and none where the
/// place is too large to be one.
pub fn pixel_place(image: &Image, i: i64, j: i64) -> (r: Option<usize>)
    ensures
        r is Some <==> in_picture(*image, i as int, j as int) && spec_place(
            *image,
            i as int,
            j as int,
        ) <= usize::MAX,
        r matches Some(place) ==> place == spec_place(*image, i as int, j as int),
{
    if i < 0 || i >= image.width || j < 0 || j >= image.height {
        return None;
    }
    let row: i128 = image.height as i128 - 1 - j as i128;
    proof {
        lemma_place_in_range(*image, i as int, j as int);
        assert(0 <= row * image.width <= 0x7fff_ffff_ffff_ffff * 0x7fff_ffff_ffff_ffff)
            by (nonlinear_arith)
            requires
                0 <= row <= 0x7fff_ffff_ffff_ffff,
                0 < image.width <= 0x7fff_ffff_ffff_ffff,
        ;
    }
    let place: i128 = row * image.width as i128 + i as i128;
    if place > usize::MAX as i128 {
        return None;
    }
    Some(place as usize)
}

/// The column, and the row counted from the bottom, of the pixel at `place`
/// of the rendered sequence; none beyond the picture.
pub fn pixel_at(image: &Image, place: usize) -> (r: Option<(i64, i64)>)
    ensures
        r is Some <==> image.width > 0 && image.height > 0 && place < image.width * image.height,
        r matches Some((i, j)) ==> in_picture(*image, i as int, j as int) && spec_place(
            *image,
            i as int,
            j as int,
        ) == place,
{
    if image.width <= 0 || image.height <= 0 {
        return None;
    }
    let w: i128 = image.width as i128;
    let h: i128 = image.height as i128;
    let at: i128 = place as i128;
    proof {
        assert(0 < w * h <= 0x7fff_ffff_ffff_ffff * 0x7fff_ffff_ffff_ffff) by (nonlinear_arith)
            requires
                0 < w <= 0x7fff_ffff_ffff_ffff,
                0 < h <= 0x7fff_ffff_ffff_ffff,
        ;
    }
    if at >= w * h {
        return None;
    }
    let row: i128 = at / w;
    let i: i128 = at % w;
    proof {
        vstd::arithmetic::div_mod::lemma_fundamental_div_mod(at as int, w as int);
        vstd::arithmetic::div_mod::lemma_mod_bound(at as int, w as int);
        vstd::arithmetic::div_mod::lemma_div_pos_is_pos(at as int, w as int);
        assert(row < h) by (nonlinear_arith)
            requires
                at < w * h,
                at == w * row + i,
                0 <= i,
                w > 0,
        ;
        assert(w * row == row * w) by (nonlinear_arith);
    }
    let j: i128 = h - 1 - row;
    Some((i as i64, j as i64))
}

/// Inside the picture, a pixel's place lies within the rendered sequence.
pub proof fn lemma_place_in_range(image: Image, i: int, j: int)
    requires
        in_picture(image, i, j),
    ensures
        0 <= spec_place(image, i, j) < image.width * image.height,
{
    let row = image.height - 1 - j;
    assert(0 <= row * image.width) by (nonlinear_arith)
        requires
            0 <= row,
            image.width > 0,
    ;
    assert(row * image.width + i < image.width * image.height) by (nonlinear_arith)
        requires
            0 <= row <= image.height - 1,
            0 <= i < image.width,
    ;
}

/// Two pixels of the picture that are rendered at the same place are the
/// same pixel.
pub proof fn lemma_place_injective(image: Image, i0: int, j0: int, i1: int, j1: int)
    requires
        in_picture(image, i0, j0),
        in_picture(image, i1, j1),
        spec_place(image, i0, j0) == spec_place(image, i1, j1),
    ensures
        i0 == i1,
        j0 == j1,
{
    let w = image.width as int;
    let r0 = image.height - 1 - j0;
    let r1 = image.height - 1 - j1;
    assert(r0 == r1) by (nonlinear_arith)
        requires
            r0 * w + i0 == r1 * w + i1,
            0 <= i0 < w,
            0 <= i1 < w,
    ;
}

/// Rows are rendered from the top down, and each row from left to right.
pub proof fn lemma_scan_order(image: Image, i0: int, j0: int, i1: int, j1: int)
    requires
        in_picture(image, i0, j0),
        in_picture(image, i1, j1),
    ensures
        j0 > j1 ==> spec_place(image, i0, j0) < spec_place(image, i1, j1),
        j0 == j1 && i0 < i1 ==> spec_place(image, i0, j0) < spec_place(image, i1, j1),
{
    let w = image.width as int;
    let r0 = image.height - 1 - j0;
    let r1 = image.height - 1 - j1;
    if j0 > j1 {
        assert(r0 * w + i0 < r1 * w + i1) by (nonlinear_arith)
            requires
                r0 < r1,
                0 <= i0 < w,
                0 <= i1 < w,
        ;
    }
}

/// The rank nearest to `v` between `low` and `high`: `v` itself where it
/// lies between them, else the one of the two that it lies beyond.
pub open spec fn spec_clamp(v: i64, low: i64, high: i64) -> i64 {
    if v < low {
        low
    } else if v > high {
        high
    } else {
        v
    }
}

/// Draws the rank of a colour part into the range that a pixel can show.
#[verifier::when_used_as_spec(spec_clamp)]
pub fn clamp(v: i64, low: i64, high: i64) -> (r: i64)
    ensures
        r == spec_clamp(v, low, high),
        low <= high ==> low <= r <= high,
{
    if v < low {
        low
    } else if v > high {
        high
    } else {
        v
    }
}

/// The decimal digits of `n`, as characters.
pub open spec fn decimal(n: nat) -> Seq<u8>
    decreases n,
{
    if n < 10 {
        seq![(48 + n) as u8]
    } else {
        decimal(n / 10).push((48 + n % 10) as u8)
    }
}

/// A whole number as text: its decimal digits, behind a minus sign if it is
/// negative.
pub open spec fn signed_decimal(n: int) -> Seq<u8> {
    if n < 0 {
        seq![45u8] + decimal((-n) as nat)
    } else {
        decimal(n as nat)
    }
}

/// The head of a plain pixmap of the given size: the magic number, the
/// width and the height, and the largest value of a channel, each on a line
/// of its own.
pub open spec fn spec_header(width: i64, height: i64) -> Seq<u8> {
    seq![80u8, 51u8, 10u8] + signed_decimal(width as int) + seq![32u8] + signed_decimal(
        height as int,
    ) + seq![10u8, 50u8, 53u8, 53u8, 10u8]
}

/// One pixel of a plain pixmap: its red, green and blue values, with a
/// blank between them and on a line of their own.
pub open spec fn spec_pixel(r: u64, g: u64, b: u64) -> Seq<u8> {
    decimal(r as nat) + seq![32u8] + decimal(g as nat) + seq![32u8] + decimal(b as nat)
        + seq![10u8]
}

/// Appends the decimal digits of `n`.
pub fn push_decimal(out: &mut Vec<u8>, n: u64)
    ensures
        final(out)@ == old(out)@ + decimal(n as nat),
    decreases n,
{
    if n >= 10 {
        push_decimal(out, n / 10);
    }
    let digit: u8 = (n % 10) as u8;
    out.push(48 + digit);
    proof {
        if n >= 10 {
            assert(final(out)@ =~= old(out)@ + decimal(n as nat));
        } else {
            assert(final(out)@ =~= old(out)@ + decimal(n as nat));
        }
    }
}

/// Appends a whole number as text.
pub fn push_signed(out: &mut Vec<u8>, n: i64)
    ensures
        final(out)@ == old(out)@ + signed_decimal(n as int),
{
    if n < 0 {
        out.push(45);
        let magnitude: u64 = if n == i64::MIN {
            9223372036854775808u64
        } else {
            (-n) as u64
        };
        push_decimal(out, magnitude);
        proof {
            assert(final(out)@ =~= old(out)@ + signed_decimal(n as int));
        }
    } else {
        push_decimal(out, n as u64);
    }
}

/// The head of a plain pixmap of the given size.
pub fn header(width: i64, height: i64) -> (out: Vec<u8>)
    ensures
        out@ == spec_header(width, height),
{
    let mut out: Vec<u8> = Vec::new();
    out.push(80);
    out.push(51);
    out.push(10);
    push_signed(&mut out, width);
    out.push(32);
    push_signed(&mut out, height);
    out.push(10);
    out.push(50);
    out.push(53);
    out.push(53);
    out.push(10);
    proof {
        assert(out@ =~= spec_header(width, height));
    }
    out
}

/// Appends one pixel to the text of a plain pixmap.
pub fn write_pixel(out: &mut Vec<u8>, r: u64, g: u64, b: u64)
    ensures
        final(out)@ == old(out)@ + spec_pixel(r, g, b),
{
    push_decimal(out, r);
    out.push(32);
    push_decimal(out, g);
    out.push(32);
    push_decimal(out, b);
    out.push(10);
    proof {
        assert(final(out)@ =~= old(out)@ + spec_pixel(r, g, b));
    }
}

/// The lines of the pixels of a plain pixmap, one after the other.
pub open spec fn spec_body(pixels: Seq<(u64, u64, u64)>) -> Seq<u8>
    decreases pixels.len(),
{
    if pixels.len() == 0 {
        Seq::<u8>::empty()
    } else {
        spec_body(pixels.drop_last()) + spec_pixel(
            pixels.last().0,
            pixels.last().1,
            pixels.last().2,
        )
    }
}

/// The text of a plain pixmap: the head for the given size, and a line for
/// each pixel in the order given.
pub fn pixmap(width: i64, height: i64, pixels: &Vec<(u64, u64, u64)>) -> (out: Vec<u8>)
    ensures
        out@ == spec_header(width, height) + spec_body(pixels@),
{
    let mut out: Vec<u8> = header(width, height);
    let mut n: usize = 0;
    proof {
        assert(pixels@.take(0) =~= Seq::<(u64, u64, u64)>::empty());
        assert(out@ =~= spec_header(width, height) + spec_body(pixels@.take(0)));
    }
    while n < pixels.len()
        invariant
            n <= pixels.len(),
            out@ == spec_header(width, height) + spec_body(pixels@.take(n as int)),
        decreases pixels.len() - n,
    {
        let pixel: (u64, u64, u64) = pixels[n];
        let ghost before = out@;
        write_pixel(&mut out, pixel.0, pixel.1, pixel.2);
        proof {
            let next = pixels@.take(n + 1);
            assert(next.drop_last() =~= pixels@.take(n as int));
            assert(next.last() == pixel);
            assert(out@ =~= spec_header(width, height) + spec_body(next));
        }
        n = n + 1;
    }
    proof {
        assert(pixels@.take(n as int) =~= pixels@);
    }
    out
}

/// `sum` is what `n` samples of the pixel in column `i` and row `j` may add
/// up to, where `sample` casts one ray through the pixel and `mix` adds two
/// colours, starting from `black`.
pub open spec fn sampled<S: Fn(i64, i64) -> Color, A: Fn(Color, Color) -> Color>(
    sample: S,
    mix: A,
    i: i64,
    j: i64,
    n: nat,
    black: Color,
    sum: Color,
) -> bool
    decreases n,
{
    if n == 0 {
        sum == black
    } else {
        exists|before: Color, drawn: Color|
            {
                &&& sampled(sample, mix, i, j, (n - 1) as nat, black, before)
                &&& sample.ensures((i, j), drawn)
                &&& #[trigger] mix.ensures((before, drawn), sum)
            }
    }
}

/// `partial` is a picture as one worker may render it: it has a colour for
/// each pixel of the picture, in the order in which pixels are rendered, and
/// each is what `samples` samples of its pixel may add up to.
pub open spec fn rendered<S: Fn(i64, i64) -> Color, A: Fn(Color, Color) -> Color>(
    image: Image,
    samples: u64,
    sample: S,
    mix: A,
    black: Color,
    partial: Seq<Color>,
) -> bool {
    &&& partial.len() == image.width * image.height
    &&& forall|i: i64, j: i64|
        in_picture(image, i as int, j as int) ==> sampled(
            sample,
            mix,
            i,
            j,
            samples as nat,
            black,
            #[trigger] partial[spec_place(image, i as int, j as int)],
        )
}

/// Adds up `samples` samples of the pixel in column `i` and row `j`.
pub fn sample_pixel<S: Fn(i64, i64) -> Color, A: Fn(Color, Color) -> Color>(
    samples: u64,
    sample: &S,
    mix: &A,
    i: i64,
    j: i64,
    black: Color,
) -> (sum: Color)
    requires
        forall|a: i64, b: i64| #[trigger] sample.requires((a, b)),
        forall|a: Color, b: Color| #[trigger] mix.requires((a, b)),
    ensures
        sampled(*sample, *mix, i, j, samples as nat, black, sum),
{
    let mut pixel_color: Color = black;
    let mut n: u64 = 0;
    while n < samples
        invariant
            n <= samples,
            forall|a: i64, b: i64| #[trigger] sample.requires((a, b)),
            forall|a: Color, b: Color| #[trigger] mix.requires((a, b)),
            sampled(*sample, *mix, i, j, n as nat, black, pixel_color),
        decreases samples - n,
    {
        let ghost before = pixel_color;
        let drawn: Color = sample(i, j);
        pixel_color = mix(pixel_color, drawn);
        proof {
            assert(sampled(*sample, *mix, i, j, ((n + 1) - 1) as nat, black, before));
            assert(mix.ensures((before, drawn), pixel_color));
        }
        n = n + 1;
    }
    pixel_color
}

/// Renders the whole picture as one worker does: every pixel, in the order
/// in which pixels are rendered, with `samples` samples each. There is no
/// picture where a side is negative or the pixels are too many to hold.
pub fn render_share<S: Fn(i64, i64) -> Color, A: Fn(Color, Color) -> Color>(
    image: &Image,
    samples: u64,
    sample: &S,
    mix: &A,
    black: Color,
) -> (r: Option<Vec<Color>>)
    requires
        forall|a: i64, b: i64| #[trigger] sample.requires((a, b)),
        forall|a: Color, b: Color| #[trigger] mix.requires((a, b)),
    ensures
        r is Some <==> image.width >= 0 && image.height >= 0 && image.width * image.height
            <= usize::MAX,
        r matches Some(partial) ==> rendered(*image, samples, *sample, *mix, black, partial@),
{
    let pixels: usize = match image.pixels() {
        Some(n) => n,
        None => {
            return None;
        },
    };
    let mut partial: Vec<Color> = Vec::new();
    let mut place: usize = 0;
    while place < pixels
        invariant
            place <= pixels,
            pixels == image.width * image.height,
            image.width >= 0,
            image.height >= 0,
            partial@.len() == place,
            forall|a: i64, b: i64| #[trigger] sample.requires((a, b)),
            forall|a: Color, b: Color| #[trigger] mix.requires((a, b)),
            forall|i: i64, j: i64|
                in_picture(*image, i as int, j as int) && spec_place(*image, i as int, j as int)
                    < place ==> sampled(
                    *sample,
                    *mix,
                    i,
                    j,
                    samples as nat,
                    black,
                    #[trigger] partial@[spec_place(*image, i as int, j as int)],
                ),
        decreases pixels - place,
    {
        let at: Option<(i64, i64)> = pixel_at(image, place);
        proof {
            assert(image.width > 0 && image.height > 0) by (nonlinear_arith)
                requires
                    place < image.width * image.height,
                    image.width >= 0,
                    image.height >= 0,
            ;
        }
        let (i, j) = at.unwrap();
        let sum: Color = sample_pixel(samples, sample, mix, i, j, black);
        let ghost before = partial@;
        partial.push(sum);
        proof {
            assert forall|a: i64, b: i64|
                in_picture(*image, a as int, b as int) && spec_place(*image, a as int, b as int)
                    < place + 1 implies sampled(
                *sample,
                *mix,
                a,
                b,
                samples as nat,
                black,
                #[trigger] partial@[spec_place(*image, a as int, b as int)],
            ) by {
                lemma_place_in_range(*image, a as int, b as int);
                let at_place = spec_place(*image, a as int, b as int);
                if at_place == place {
                    lemma_place_injective(*image, a as int, b as int, i as int, j as int);
                } else {
                    assert(partial@[at_place] == before[at_place]);
                }
            }
        }
        place = place + 1;
    }
    proof {
        assert forall|i: i64, j: i64| in_picture(*image, i as int, j as int) implies spec_place(
            *image,
            i as int,
            j as int,
        ) < place by {
            lemma_place_in_range(*image, i as int, j as int);
        }
    }
    Some(partial)
}

/// `sum` is what the colours at `place` of the first `n` of `partials` may
/// add up to, starting from `black`.
pub open spec fn summed<A: Fn(Color, Color) -> Color>(
    mix: A,
    partials: Seq<Vec<Color>>,
    place: int,
    n: nat,
    black: Color,
    sum: Color,
) -> bool
    decreases n,
{
    if n == 0 {
        sum == black
    } else {
        exists|before: Color|
            {
                &&& summed(mix, partials, place, (n - 1) as nat, black, before)
                &&& #[trigger] mix.ensures((before, partials[n - 1]@[place]), sum)
            }
    }
}

/// Whether every picture of `partials` has `pixels` pixels.
pub open spec fn same_size(partials: Seq<Vec<Color>>, pixels: int) -> bool {
    forall|k: int| 0 <= k < partials.len() ==> (#[trigger] partials[k])@.len() == pixels
}

/// Adds up, pixel by pixel, the pictures that the workers have rendered.
/// There is no sum without a picture, or of pictures of different sizes.
pub fn combine<A: Fn(Color, Color) -> Color>(partials: &Vec<Vec<Color>>, mix: &A, black: Color) -> (r:
    Option<Vec<Color>>)
    requires
        forall|a: Color, b: Color| #[trigger] mix.requires((a, b)),
    ensures
        r is Some <==> partials@.len() > 0 && same_size(partials@, partials@[0]@.len() as int),
        r matches Some(total) ==> {
            &&& total@.len() == partials@[0]@.len()
            &&& forall|place: int|
                0 <= place < total@.len() ==> summed(
                    *mix,
                    partials@,
                    place,
                    partials@.len(),
                    black,
                    #[trigger] total@[place],
                )
        },
{
    if partials.len() == 0 {
        return None;
    }
    let pixels: usize = partials[0].len();
    let mut k: usize = 0;
    while k < partials.len()
        invariant
            k <= partials.len(),
            partials@.len() > 0,
            pixels == partials@[0]@.len(),
            forall|m: int| 0 <= m < k ==> (#[trigger] partials@[m])@.len() == pixels,
        decreases partials.len() - k,
    {
        if partials[k].len() != pixels {
            return None;
        }
        k = k + 1;
    }
    let mut total: Vec<Color> = Vec::new();
    let mut place: usize = 0;
    while place < pixels
        invariant
            place <= pixels,
            total@.len() == place,
            partials@.len() > 0,
            pixels == partials@[0]@.len(),
            same_size(partials@, pixels as int),
            forall|a: Color, b: Color| #[trigger] mix.requires((a, b)),
            forall|at: int|
                0 <= at < place ==> summed(
                    *mix,
                    partials@,
                    at,
                    partials@.len(),
                    black,
                    #[trigger] total@[at],
                ),
        decreases pixels - place,
    {
        let mut color: Color = black;
        let mut n: usize = 0;
        while n < partials.len()
            invariant
                n <= partials.len(),
                place < pixels,
                same_size(partials@, pixels as int),
                forall|a: Color, b: Color| #[trigger] mix.requires((a, b)),
                summed(*mix, partials@, place as int, n as nat, black, color),
            decreases partials.len() - n,
        {
            let ghost before = color;
            assert(partials@[n as int]@.len() == pixels);
            color = mix(color, partials[n][place]);
            proof {
                assert(summed(*mix, partials@, place as int, ((n + 1) - 1) as nat, black, before));
                assert(mix.ensures((before, partials@[(n + 1) - 1]@[place as int]), color));
            }
            n = n + 1;
        }
        total.push(color);
        place = place + 1;
    }
    Some(total)
}

/// `pixels` holds what `shade` may make of each summed colour of `total`,
/// where `shade(sum, samples)` turns the sum of `samples` samples into the
/// three values of a pixel.
pub open spec fn developed<Q: Fn(Color, u64) -> (u64, u64, u64)>(
    shade: Q,
    total: Seq<Color>,
    samples: u64,
    pixels: Seq<(u64, u64, u64)>,
) -> bool {
    &&& pixels.len() == total.len()
    &&& forall|place: int|
        0 <= place < total.len() ==> shade.ensures(
            (total[place], samples),
            #[trigger] pixels[place],
        )
}

/// The text of the picture whose summed colours are `total`, each the sum
/// of `samples` samples: a plain pixmap with the pixel that `shade` makes of
/// each sum. There is no picture without a sample, nor unless `total` holds
/// a colour for each pixel.
pub fn develop<Q: Fn(Color, u64) -> (u64, u64, u64)>(
    image: &Image,
    total: &Vec<Color>,
    samples: u64,
    shade: &Q,
) -> (r: Option<Vec<u8>>)
    requires
        forall|c: Color, n: u64| #[trigger] shade.requires((c, n)),
    ensures
        r is Some <==> samples > 0 && image.width >= 0 && image.height >= 0 && total@.len()
            == image.width * image.height,
        r matches Some(out) ==> exists|pixels: Seq<(u64, u64, u64)>| #[trigger]
            developed(*shade, total@, samples, pixels) && out@ == spec_header(
                image.width,
                image.height,
            ) + spec_body(pixels),
{
    if samples == 0 {
        return None;
    }
    let sums: usize = total.len();
    match image.pixels() {
        Some(n) => {
            if n != sums {
                return None;
            }
        },
        None => {
            return None;
        },
    }
    let mut pixels: Vec<(u64, u64, u64)> = Vec::new();
    let mut place: usize = 0;
    while place < total.len()
        invariant
            place <= total@.len(),
            pixels@.len() == place,
            forall|c: Color, n: u64| #[trigger] shade.requires((c, n)),
            forall|at: int|
                0 <= at < place ==> shade.ensures((total@[at], samples), #[trigger] pixels@[at]),
        decreases total@.len() - place,
    {
        let pixel: (u64, u64, u64) = shade(total[place], samples);
        pixels.push(pixel);
        place = place + 1;
    }
    let out: Vec<u8> = pixmap(image.width, image.height, &pixels);
    proof {
        assert(developed(*shade, total@, samples, pixels@));
    }
    Some(out)
}

} // verus!
