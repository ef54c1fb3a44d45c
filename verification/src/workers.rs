//! Why the number of workers does not show in the picture.
//!
//! Each worker adds up its share of the samples of a pixel, and the sums of
//! the workers are added up in turn. Where every ray through a pixel gathers
//! the same colour and the sums of that colour come out exactly, it makes no
//! difference how the samples are shared out, as long as all of them are
//! cast.

use crate::math::Color;
use crate::render::{developed, in_picture, rendered, sampled, spec_place, summed};
use crate::scene::Image;
use vstd::prelude::*;

verus! {

/// Every ray that `sample` casts through a pixel gathers the colour that
/// `value` gives for that pixel.
pub open spec fn steady<S: Fn(i64, i64) -> Color>(
    sample: S,
    value: spec_fn(i64, i64) -> Color,
) -> bool {
    forall|i: i64, j: i64, c: Color| #[trigger] sample.ensures((i, j), c) ==> c == value(i, j)
}

/// `mix` computes `plus`.
pub open spec fn computes<A: Fn(Color, Color) -> Color>(
    mix: A,
    plus: spec_fn(Color, Color) -> Color,
) -> bool {
    forall|a: Color, b: Color, c: Color| #[trigger] mix.ensures((a, b), c) ==> c == plus(a, b)
}

/// The colour `c` added up `n` times, starting from `black`.
pub open spec fn times(plus: spec_fn(Color, Color) -> Color, black: Color, c: Color, n: nat) -> Color
    decreases n,
{
    if n == 0 {
        black
    } else {
        plus(times(plus, black, c, (n - 1) as nat), c)
    }
}

/// The sums of the colour `c` that occur on the way to `limit` samples come
/// out exactly: what `m` samples add up to and what `n` samples add up to
/// make what `m + n` samples add up to, as long as `m + n` does not exceed
/// `limit`. Nothing is asked of other colours or of longer sums.
pub open spec fn adds_up(
    plus: spec_fn(Color, Color) -> Color,
    black: Color,
    c: Color,
    limit: nat,
) -> bool {
    forall|m: nat, n: nat|
        m + n <= limit ==> #[trigger] plus(times(plus, black, c, m), times(plus, black, c, n))
            == times(plus, black, c, m + n)
}

/// Adding up `n` times what a colour adds up to in `k` times is adding the
/// colour up `k * n` times.
pub proof fn lemma_times_times(
    plus: spec_fn(Color, Color) -> Color,
    black: Color,
    c: Color,
    k: nat,
    n: nat,
)
    requires
        adds_up(plus, black, c, k * n),
    ensures
        times(plus, black, times(plus, black, c, k), n) == times(plus, black, c, k * n),
    decreases n,
{
    if n == 0 {
        assert(k * n == 0) by (nonlinear_arith)
            requires
                n == 0,
        ;
    } else {
        let before = (n - 1) as nat;
        assert(k * before + k == k * n && k * before <= k * n) by (nonlinear_arith)
            requires
                n > 0,
                before == n - 1,
        ;
        assert(adds_up(plus, black, c, k * before)) by {
            assert forall|a: nat, b: nat| a + b <= k * before implies #[trigger] plus(
                times(plus, black, c, a),
                times(plus, black, c, b),
            ) == times(plus, black, c, a + b) by {
                assert(a + b <= k * n);
            }
        }
        lemma_times_times(plus, black, c, k, before);
        assert(plus(times(plus, black, c, k * before), times(plus, black, c, k)) == times(
            plus,
            black,
            c,
            k * before + k,
        ));
    }
}

/// The samples of a pixel whose rays all gather the same colour add up to
/// that colour times their number.
pub proof fn lemma_steady_samples<S: Fn(i64, i64) -> Color, A: Fn(Color, Color) -> Color>(
    sample: S,
    mix: A,
    value: spec_fn(i64, i64) -> Color,
    plus: spec_fn(Color, Color) -> Color,
    i: i64,
    j: i64,
    n: nat,
    black: Color,
    sum: Color,
)
    requires
        steady(sample, value),
        computes(mix, plus),
        sampled(sample, mix, i, j, n, black, sum),
    ensures
        sum == times(plus, black, value(i, j), n),
    decreases n,
{
    if n > 0 {
        let (before, drawn) = choose|before: Color, drawn: Color|
            {
                &&& sampled(sample, mix, i, j, (n - 1) as nat, black, before)
                &&& sample.ensures((i, j), drawn)
                &&& #[trigger] mix.ensures((before, drawn), sum)
            };
        lemma_steady_samples(sample, mix, value, plus, i, j, (n - 1) as nat, black, before);
    }
}

/// Pictures that hold the same colour at a place add up there to that
/// colour times their number.
pub proof fn lemma_equal_shares<A: Fn(Color, Color) -> Color>(
    mix: A,
    plus: spec_fn(Color, Color) -> Color,
    partials: Seq<Vec<Color>>,
    place: int,
    n: nat,
    black: Color,
    share: Color,
    sum: Color,
)
    requires
        computes(mix, plus),
        n <= partials.len(),
        forall|k: int| 0 <= k < n ==> (#[trigger] partials[k])@[place] == share,
        summed(mix, partials, place, n, black, sum),
    ensures
        sum == times(plus, black, share, n),
    decreases n,
{
    if n > 0 {
        let before = choose|before: Color|
            {
                &&& summed(mix, partials, place, (n - 1) as nat, black, before)
                &&& #[trigger] mix.ensures((before, partials[n - 1]@[place]), sum)
            };
        lemma_equal_shares(mix, plus, partials, place, (n - 1) as nat, black, share, before);
        assert(partials[n - 1]@[place] == share);
    }
}

/// Every place of the rendered sequence is the place of a pixel.
pub proof fn lemma_place_has_a_pixel(image: Image, place: int) -> (at: (i64, i64))
    requires
        0 <= place < image.width * image.height,
        image.width > 0,
        image.height > 0,
    ensures
        in_picture(image, at.0 as int, at.1 as int),
        spec_place(image, at.0 as int, at.1 as int) == place,
{
    let w = image.width as int;
    let h = image.height as int;
    let row = place / w;
    let i = place % w;
    vstd::arithmetic::div_mod::lemma_fundamental_div_mod(place, w);
    vstd::arithmetic::div_mod::lemma_mod_bound(place, w);
    vstd::arithmetic::div_mod::lemma_div_pos_is_pos(place, w);
    assert(row < h) by (nonlinear_arith)
        requires
            place < w * h,
            place == w * row + i,
            0 <= i,
            w > 0,
    ;
    assert(w * row == row * w) by (nonlinear_arith);
    let j = h - 1 - row;
    (i as i64, j as i64)
}

/// The number of workers does not show in the picture.
///
/// Let every ray through a pixel gather the same colour, and let the sums of
/// that colour that occur on the way to the full number of samples come out
/// exactly. Let the number of workers divide the number of samples, let each
/// worker render the picture with its even share of them, and let the
/// workers' pictures be added up pixel by pixel. Then the sum is the picture
/// that a single worker renders with all the samples.
pub proof fn lemma_workers_do_not_show<S: Fn(i64, i64) -> Color, A: Fn(Color, Color) -> Color>(
    image: Image,
    samples: u64,
    threads: u64,
    sample: S,
    mix: A,
    value: spec_fn(i64, i64) -> Color,
    plus: spec_fn(Color, Color) -> Color,
    black: Color,
    partials: Seq<Vec<Color>>,
    total: Seq<Color>,
    single: Seq<Color>,
)
    requires
        image.width >= 0,
        image.height >= 0,
        threads > 0,
        samples % threads == 0,
        steady(sample, value),
        computes(mix, plus),
        forall|i: i64, j: i64|
            in_picture(image, i as int, j as int) ==> adds_up(
                plus,
                black,
                #[trigger] value(i, j),
                samples as nat,
            ),
        partials.len() == threads,
        forall|k: int|
            0 <= k < threads ==> rendered(
                image,
                (samples / threads) as u64,
                sample,
                mix,
                black,
                (#[trigger] partials[k])@,
            ),
        total.len() == image.width * image.height,
        forall|place: int|
            0 <= place < total.len() ==> summed(
                mix,
                partials,
                place,
                threads as nat,
                black,
                #[trigger] total[place],
            ),
        rendered(image, samples, sample, mix, black, single),
    ensures
        total == single,
{
    let share = (samples / threads) as nat;
    assert forall|place: int| 0 <= place < total.len() implies total[place] == single[place] by {
        assert(image.width > 0 && image.height > 0) by (nonlinear_arith)
            requires
                0 <= place < image.width * image.height,
                image.width >= 0,
                image.height >= 0,
        ;
        let at = lemma_place_has_a_pixel(image, place);
        let c = value(at.0, at.1);
        assert(spec_place(image, at.0 as int, at.1 as int) == place);
        lemma_steady_samples(sample, mix, value, plus, at.0, at.1, samples as nat, black, single[place]);
        let one = times(plus, black, c, share);
        assert forall|k: int| 0 <= k < threads implies (#[trigger] partials[k])@[place] == one by {
            assert(rendered(image, (samples / threads) as u64, sample, mix, black, partials[k]@));
            lemma_steady_samples(
                sample,
                mix,
                value,
                plus,
                at.0,
                at.1,
                share,
                black,
                partials[k]@[spec_place(image, at.0 as int, at.1 as int)],
            );
        }
        lemma_equal_shares(mix, plus, partials, place, threads as nat, black, one, total[place]);
        vstd::arithmetic::div_mod::lemma_fundamental_div_mod(samples as int, threads as int);
        assert(share * (threads as nat) == samples) by (nonlinear_arith)
            requires
                samples == threads * (samples / threads) + samples % threads,
                samples % threads == 0,
                share == samples / threads,
        ;
        assert(adds_up(plus, black, c, samples as nat));
        lemma_times_times(plus, black, c, share, threads as nat);
    }
    assert(total =~= single);
}

/// `shade` computes `shown`.
pub open spec fn shows<Q: Fn(Color, u64) -> (u64, u64, u64)>(
    shade: Q,
    shown: spec_fn(Color, u64) -> (u64, u64, u64),
) -> bool {
    forall|c: Color, n: u64, pixel: (u64, u64, u64)| #[trigger]
        shade.ensures((c, n), pixel) ==> pixel == shown(c, n)
}

/// The number of workers does not show in the pixels that are written.
///
/// Under the conditions of `lemma_workers_do_not_show`, the summed picture of
/// the workers, divided by the number of samples that they have cast in all,
/// gives the pixels that the picture of a single worker gives, divided by
/// the number of its samples.
pub proof fn lemma_workers_do_not_show_in_pixels<
    S: Fn(i64, i64) -> Color,
    A: Fn(Color, Color) -> Color,
    Q: Fn(Color, u64) -> (u64, u64, u64),
>(
    image: Image,
    samples: u64,
    threads: u64,
    sample: S,
    mix: A,
    shade: Q,
    value: spec_fn(i64, i64) -> Color,
    plus: spec_fn(Color, Color) -> Color,
    shown: spec_fn(Color, u64) -> (u64, u64, u64),
    black: Color,
    partials: Seq<Vec<Color>>,
    total: Seq<Color>,
    single: Seq<Color>,
    pixels_of_total: Seq<(u64, u64, u64)>,
    pixels_of_single: Seq<(u64, u64, u64)>,
)
    requires
        image.width >= 0,
        image.height >= 0,
        threads > 0,
        samples % threads == 0,
        steady(sample, value),
        computes(mix, plus),
        shows(shade, shown),
        forall|i: i64, j: i64|
            in_picture(image, i as int, j as int) ==> adds_up(
                plus,
                black,
                #[trigger] value(i, j),
                samples as nat,
            ),
        partials.len() == threads,
        forall|k: int|
            0 <= k < threads ==> rendered(
                image,
                (samples / threads) as u64,
                sample,
                mix,
                black,
                (#[trigger] partials[k])@,
            ),
        total.len() == image.width * image.height,
        forall|place: int|
            0 <= place < total.len() ==> summed(
                mix,
                partials,
                place,
                threads as nat,
                black,
                #[trigger] total[place],
            ),
        rendered(image, samples, sample, mix, black, single),
        developed(shade, total, (threads * (samples / threads)) as u64, pixels_of_total),
        developed(shade, single, samples, pixels_of_single),
    ensures
        pixels_of_total == pixels_of_single,
{
    lemma_workers_do_not_show(
        image,
        samples,
        threads,
        sample,
        mix,
        value,
        plus,
        black,
        partials,
        total,
        single,
    );
    crate::scene::lemma_share_exact(samples, threads);
    assert forall|place: int| 0 <= place < pixels_of_total.len() implies pixels_of_total[place]
        == pixels_of_single[place] by {
        assert(shade.ensures((total[place], samples), pixels_of_total[place]));
        assert(shade.ensures((single[place], samples), pixels_of_single[place]));
    }
    assert(pixels_of_total =~= pixels_of_single);
}

} // verus!
