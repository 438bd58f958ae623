//! Averaging the samples of a pixel.

use vstd::prelude::*;
use vstd::arithmetic::div_mod::lemma_div_is_ordered;
use crate::color::saturate;
use crate::color::Col3;
use crate::scalar::Scalar;

verus! {

/// What one traced ray adds to its pixel: a colour and the gain to weigh
/// it by.
#[derive(Clone, Copy, Debug, PartialEq, Eq, Structural)]
pub struct Sample {
    pub color: Col3,
    pub gamma: Scalar,
}

impl Sample {
    /// The sample's weight in the red, green and blue sums.
    pub open spec fn weight(self) -> (int, int, int) {
        (
            self.gamma.scaled(self.color.r),
            self.gamma.scaled(self.color.g),
            self.gamma.scaled(self.color.b),
        )
    }
}

/// The red, green and blue weights of `samples`, summed.
pub open spec fn weight_sum(samples: Seq<Sample>) -> (int, int, int)
    decreases samples.len(),
{
    if samples.len() == 0 {
        (0, 0, 0)
    } else {
        let front = weight_sum(samples.drop_last());
        let last = samples.last().weight();
        (front.0 + last.0, front.1 + last.1, front.2 + last.2)
    }
}

/// The pixel that `samples` average to when `rays_per_pixel` rays were
/// asked for: each sum divided by that count and held at 255. A pixel that
/// no ray was asked for is black.
pub open spec fn pixel_of(samples: Seq<Sample>, rays_per_pixel: u16) -> Col3 {
    if rays_per_pixel == 0 {
        Col3::black_spec()
    } else {
        let sum = weight_sum(samples);
        Col3 {
            r: saturate(sum.0 / (rays_per_pixel as int)),
            g: saturate(sum.1 / (rays_per_pixel as int)),
            b: saturate(sum.2 / (rays_per_pixel as int)),
        }
    }
}

/// A sum as a 64-bit accumulator holds it: exact up to the largest value.
pub open spec fn held(sum: int) -> u64 {
    if sum > u64::MAX {
        u64::MAX
    } else {
        sum as u64
    }
}

/// Black samples weigh nothing, so they average to black.
pub proof fn black_samples_give_black(samples: Seq<Sample>, rays_per_pixel: u16)
    requires
        forall|i: int| 0 <= i < samples.len() ==> (#[trigger] samples[i]).color == Col3::black_spec(),
    ensures
        weight_sum(samples) == (0int, 0int, 0int),
        pixel_of(samples, rays_per_pixel) == Col3::black_spec(),
    decreases samples.len(),
{
    if samples.len() > 0 {
        let front = samples.drop_last();
        assert forall|i: int| 0 <= i < front.len() implies (#[trigger] front[i]).color
            == Col3::black_spec() by {
            assert(front[i] == samples[i]);
        }
        black_samples_give_black(front, rays_per_pixel);
        assert(samples.last() == samples[samples.len() - 1]);
    }
}

proof fn weights_are_not_negative(samples: Seq<Sample>)
    ensures
        weight_sum(samples).0 >= 0,
        weight_sum(samples).1 >= 0,
        weight_sum(samples).2 >= 0,
    decreases samples.len(),
{
    if samples.len() > 0 {
        weights_are_not_negative(samples.drop_last());
        let last = samples.last();
        last.gamma.scaled_is_bounded(last.color.r);
        last.gamma.scaled_is_bounded(last.color.g);
        last.gamma.scaled_is_bounded(last.color.b);
    }
}

fn accumulate(held_sum: u64, weight: u64, Ghost(sum): Ghost<int>) -> (out: u64)
    requires
        sum >= 0,
        held_sum == held(sum),
    ensures
        out == held(sum + weight),
{
    if held_sum > u64::MAX - weight {
        u64::MAX
    } else {
        held_sum + weight
    }
}

fn average(held_sum: u64, count: u16, Ghost(sum): Ghost<int>) -> (out: u8)
    requires
        count > 0,
        sum >= 0,
        held_sum == held(sum),
    ensures
        out == saturate(sum / (count as int)),
{
    let mean: u64 = held_sum / count as u64;
    proof {
        if sum > u64::MAX {
            lemma_div_is_ordered(u64::MAX as int, sum, count as int);
            assert(0xffff_ffff_ffff_ffffint / (count as int) > 0xff) by (nonlinear_arith)
                requires
                    0 < count <= 0xffff,
            ;
        }
    }
    if mean > 0xff {
        0xff
    } else {
        mean as u8
    }
}

/// Averages the samples of one pixel.
pub fn resolve_pixel(samples: &Vec<Sample>, rays_per_pixel: u16) -> (out: Col3)
    ensures
        out == pixel_of(samples@, rays_per_pixel),
{
    if rays_per_pixel == 0 {
        return Col3::black();
    }
    let mut red: u64 = 0;
    let mut green: u64 = 0;
    let mut blue: u64 = 0;
    let mut i: usize = 0;
    while i < samples.len()
        invariant
            0 <= i <= samples.len(),
            weight_sum(samples@.take(i as int)).0 >= 0,
            weight_sum(samples@.take(i as int)).1 >= 0,
            weight_sum(samples@.take(i as int)).2 >= 0,
            red == held(weight_sum(samples@.take(i as int)).0),
            green == held(weight_sum(samples@.take(i as int)).1),
            blue == held(weight_sum(samples@.take(i as int)).2),
        decreases samples.len() - i,
    {
        let sample = samples[i];
        let ghost before = weight_sum(samples@.take(i as int));
        proof {
            assert(samples@.take(i + 1).drop_last() == samples@.take(i as int));
            assert(samples@.take(i + 1).last() == sample);
            weights_are_not_negative(samples@.take(i + 1));
        }
        red = accumulate(red, sample.gamma.scale_channel(sample.color.r), Ghost(before.0));
        green = accumulate(green, sample.gamma.scale_channel(sample.color.g), Ghost(before.1));
        blue = accumulate(blue, sample.gamma.scale_channel(sample.color.b), Ghost(before.2));
        i = i + 1;
    }
    proof {
        assert(samples@.take(samples.len() as int) == samples@);
    }
    let ghost sum = weight_sum(samples@);
    Col3::new(
        average(red, rays_per_pixel, Ghost(sum.0)),
        average(green, rays_per_pixel, Ghost(sum.1)),
        average(blue, rays_per_pixel, Ghost(sum.2)),
    )
}

} // verus!
