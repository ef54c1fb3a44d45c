//! The size of the picture and the share of each worker in rendering it.

use vstd::prelude::*;

verus! {

/// The size of the picture, and how many rays are cast through each pixel.
#[derive(Debug, Clone, Copy, PartialEq, Eq, Structural)]
pub struct Image {
    pub width: i64,
    pub height: i64,
    pub samples_per_pixel: u64,
}

impl Image {
    pub fn new(width: i64, height: i64, samples_per_pixel: u64) -> (r: Self)
        ensures
            r == (Image { width, height, samples_per_pixel }),
    {
        Self { width, height, samples_per_pixel }
    }

    /// The number of pixels; none if a side is negative or the number does
    /// not fit.
    pub fn pixels(&self) -> (r: Option<usize>)
        ensures
            r is Some <==> self.width >= 0 && self.height >= 0 && self.width * self.height
                <= usize::MAX,
            r matches Some(n) ==> n == self.width * self.height,
    {
        if self.width < 0 || self.height < 0 {
            return None;
        }
        let w: u64 = self.width as u64;
        let h: u64 = self.height as u64;
        match w.checked_mul(h) {
            Some(n) => {
                if n <= usize::MAX as u64 {
                    Some(n as usize)
                } else {
                    None
                }
            },
            None => {
                proof {
                    assert(self.width * self.height > u64::MAX);
                }
                None
            },
        }
    }
}

/// How the rays through each pixel are shared out: each of `threads`
/// workers casts `samples_per_thread` of them.
#[derive(Debug, Clone, Copy, PartialEq, Eq, Structural)]
pub struct Schedule {
    pub threads: u64,
    pub samples_per_thread: u64,
}

impl Schedule {
    /// The even share of `samples_per_pixel` rays among `threads` workers;
    /// there is none without a worker. What does not divide evenly is left
    /// out.
    pub fn new(samples_per_pixel: u64, threads: u64) -> (r: Option<Self>)
        ensures
            r is Some <==> threads > 0,
            r matches Some(s) ==> s.threads == threads && s.samples_per_thread == samples_per_pixel
                / threads,
    {
        if threads == 0 {
            return None;
        }
        Some(Self { threads, samples_per_thread: samples_per_pixel / threads })
    }

    /// The number of rays that are cast through each pixel in all.
    pub open spec fn spec_total(self) -> int {
        self.threads * self.samples_per_thread
    }

    /// The number of rays that are cast through each pixel in all, by which
    /// the summed colours are divided; none if it does not fit.
    pub fn total(&self) -> (r: Option<u64>)
        ensures
            r is Some <==> self.spec_total() <= u64::MAX,
            r matches Some(n) ==> n == self.spec_total(),
    {
        self.threads.checked_mul(self.samples_per_thread)
    }
}

/// An even share never casts more rays than were asked for, and leaves out
/// fewer than there are workers.
pub proof fn lemma_share_bounds(samples_per_pixel: u64, threads: u64)
    requires
        threads > 0,
    ensures
        threads * (samples_per_pixel / threads) <= samples_per_pixel,
        samples_per_pixel - threads * (samples_per_pixel / threads) < threads,
{
    vstd::arithmetic::div_mod::lemma_fundamental_div_mod(
        samples_per_pixel as int,
        threads as int,
    );
    vstd::arithmetic::div_mod::lemma_mod_bound(samples_per_pixel as int, threads as int);
}

/// Where the number of workers divides the number of rays asked for, all of
/// them are cast, as many as a single worker would cast: the number of
/// workers does not change how many rays make up a pixel.
pub proof fn lemma_share_exact(samples_per_pixel: u64, threads: u64)
    requires
        threads > 0,
        samples_per_pixel % threads == 0,
    ensures
        threads * (samples_per_pixel / threads) == samples_per_pixel,
        threads * (samples_per_pixel / threads) == 1 * (samples_per_pixel / 1),
{
    vstd::arithmetic::div_mod::lemma_fundamental_div_mod(
        samples_per_pixel as int,
        threads as int,
    );
}

} // verus!
