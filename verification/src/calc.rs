//! Image calculations: the difference-hash over a reduced grayscale
//! image, and the scheduling proxy that maps a chosen list of
//! calculations over an image.
//!
//! The image crate reduces an image to a 9-by-8 single-channel byte
//! buffer; everything after that reduction — the bit-by-bit construction
//! of the 64-bit hash from neighbouring-pixel comparisons — is proved
//! against an exact specification.

use vstd::arithmetic::power2::lemma2_to64;
use vstd::arithmetic::power2::lemma2_to64_rest;
use vstd::arithmetic::power2::lemma_pow2_unfold;
use vstd::arithmetic::power2::pow2;
use vstd::prelude::*;

verus! {

/// One computed artifact of an image.
#[derive(Clone, Copy, PartialEq, Eq, Structural, Debug)]
pub enum Calculation {
    /// The 64-bit difference hash.
    Dhash(u64),
    /// A thumbnail marker, carrying no data.
    Thumbnail,
}

/// Which calculations to perform on each image.
#[derive(Clone, Copy, PartialEq, Eq, Structural, Debug)]
pub enum CalcChoice {
    Dhash,
    Thumbnail,
}

/// Whether bit `e` of the difference hash is set: within row `e / 8` of
/// the 9-pixel-wide buffer, the pixel right of position `e % 8` is
/// strictly brighter.
pub open spec fn dhash_bit(rows: Seq<u8>, e: int) -> bool {
    rows[9 * (e / 8) + (e % 8) + 1] > rows[9 * (e / 8) + (e % 8)]
}

/// The hash restricted to its `n` lowest bits.
pub open spec fn dhash_prefix(rows: Seq<u8>, n: int) -> nat
    decreases n,
{
    if n <= 0 {
        0
    } else {
        dhash_prefix(rows, n - 1) + if dhash_bit(rows, n - 1) {
            pow2((n - 1) as nat)
        } else {
            0
        }
    }
}

/// The difference hash of a 72-byte buffer of 8 rows of 9 grayscale
/// pixels: bit `8 * i + j` is set exactly when pixel `j + 1` of row `i`
/// is brighter than pixel `j`.
pub open spec fn spec_dhash(rows: Seq<u8>) -> nat {
    dhash_prefix(rows, 64)
}

/// The first `n` bits of the hash fit below `pow2(n)`.
proof fn lemma_dhash_prefix_bound(rows: Seq<u8>, n: int)
    requires
        0 <= n,
    ensures
        dhash_prefix(rows, n) < pow2(n as nat),
    decreases n,
{
    if n == 0 {
        assert(pow2(0) == 1) by {
            lemma2_to64();
        }
    } else {
        lemma_dhash_prefix_bound(rows, n - 1);
        lemma_pow2_unfold(n as nat);
    }
}

/// Computes the difference hash of a 72-byte row buffer.
pub fn dhash_of_rows(rows: &Vec<u8>) -> (r: u64)
    requires
        rows@.len() == 72,
    ensures
        r as nat == spec_dhash(rows@),
{
    let mut dhash: u64 = 0;
    let mut bit: u64 = 1;
    let mut e: usize = 0;
    proof {
        lemma2_to64();
        lemma2_to64_rest();
    }
    while e < 64
        invariant
            rows@.len() == 72,
            0 <= e <= 64,
            e < 64 ==> bit == pow2(e as nat),
            dhash as nat == dhash_prefix(rows@, e as int),
            pow2(64) == 0x10000000000000000,
        decreases 64 - e,
    {
        proof {
            lemma_dhash_prefix_bound(rows@, e as int);
            if (e as int) + 1 < 64 {
                vstd::arithmetic::power2::lemma_pow2_strictly_increases(
                    (e + 1) as nat,
                    64,
                );
            }
            lemma_pow2_unfold((e + 1) as nat);
        }
        let i = e / 8;
        let j = e % 8;
        if rows[9 * i + j + 1] > rows[9 * i + j] {
            dhash = dhash + bit;
        }
        if e < 63 {
            bit = bit * 2;
        }
        e = e + 1;
    }
    dhash
}

/// The hash rows to persist from a list of calculations: each `Dhash`
/// value in order; thumbnails store nothing.
pub open spec fn spec_dhash_values(s: Seq<Calculation>) -> Seq<u64>
    decreases s.len(),
{
    if s.len() == 0 {
        Seq::empty()
    } else {
        spec_dhash_values(s.drop_last()) + match s.last() {
            Calculation::Dhash(d) => seq![d],
            Calculation::Thumbnail => Seq::empty(),
        }
    }
}

#[verifier::external_type_specification]
#[verifier::external_body]
pub struct ExDynamicImage(image::DynamicImage);

/// Relies on image's `DynamicImage::resize_exact` (to 9 by 8 pixels,
/// nearest-neighbour), `grayscale` and `to_luma8`: the result is the raw
/// single-channel buffer of the reduced image, 9 * 8 = 72 bytes, one byte
/// per pixel, row by row.
#[verifier::external_body]
fn luma_9x8(img: &image::DynamicImage) -> (r: Vec<u8>)
    ensures
        r@.len() == 72,
{
    let reduced = img.resize_exact(9, 8, image::imageops::FilterType::Nearest);
    reduced.grayscale().to_luma8().into_raw()
}

/// The difference hash of an image: reduce it to 8 rows of 9 grayscale
/// pixels, then compare each pixel with its right neighbour.
///
/// The reduction is the image crate's; whatever 72-byte buffer it hands
/// back, the hash is [`spec_dhash`] of exactly that buffer, proved in
/// [`dhash_of_rows`].
pub fn make_dhash(img: &image::DynamicImage) -> (r: Calculation)
    ensures
        exists|rows: Seq<u8>|
            rows.len() == 72 && (r matches Calculation::Dhash(d) && d as nat == #[trigger] spec_dhash(
                rows,
            )),
{
    let rows = luma_9x8(img);
    let d = dhash_of_rows(&rows);
    proof {
        assert(rows@.len() == 72 && d as nat == spec_dhash(rows@));
    }
    Calculation::Dhash(d)
}

/// The thumbnail artifact (carrying no data).
pub fn make_thumbnail(_img: &image::DynamicImage) -> (r: Calculation)
    ensures
        r == Calculation::Thumbnail,
{
    Calculation::Thumbnail
}

/// Whether one computed artifact answers one chosen calculation.
pub open spec fn answers_choice(c: CalcChoice, r: Calculation) -> bool {
    match c {
        CalcChoice::Dhash => r is Dhash,
        CalcChoice::Thumbnail => r == Calculation::Thumbnail,
    }
}

/// Schedules calculations over images and hands the results to a store.
///
/// The store itself suspends on its writes and lives with the
/// surrounding program; the proxy owns the decision of what to compute
/// for each image.
pub struct SchedulerProxy {
    pub calculations: Vec<CalcChoice>,
}

impl SchedulerProxy {
    /// A proxy that will run the given calculations on every image.
    pub fn new(calculations: Vec<CalcChoice>) -> (r: SchedulerProxy)
        ensures
            r.calculations@ == calculations@,
    {
        SchedulerProxy { calculations }
    }

    /// Runs every chosen calculation on one image, in order: what the
    /// store is handed for that image.
    pub fn schedule(&self, img: &image::DynamicImage) -> (r: Vec<Calculation>)
        ensures
            r@.len() == self.calculations@.len(),
            forall|i: int|
                0 <= i < r@.len() ==> answers_choice(self.calculations@[i], #[trigger] r@[i]),
    {
        let mut out: Vec<Calculation> = Vec::new();
        let mut i: usize = 0;
        while i < self.calculations.len()
            invariant
                0 <= i <= self.calculations@.len(),
                out@.len() == i,
                forall|j: int|
                    0 <= j < i ==> answers_choice(self.calculations@[j], #[trigger] out@[j]),
            decreases self.calculations.len() - i,
        {
            match self.calculations[i] {
                CalcChoice::Dhash => out.push(make_dhash(img)),
                CalcChoice::Thumbnail => out.push(make_thumbnail(img)),
            }
            i = i + 1;
        }
        out
    }
}

/// The values a store has to insert for a list of calculations.
pub fn dhash_values(calculated: &Vec<Calculation>) -> (r: Vec<u64>)
    ensures
        r@ == spec_dhash_values(calculated@),
{
    let mut out: Vec<u64> = Vec::new();
    let mut i: usize = 0;
    while i < calculated.len()
        invariant
            0 <= i <= calculated.len(),
            out@ == spec_dhash_values(calculated@.take(i as int)),
        decreases calculated.len() - i,
    {
        let ghost pre = calculated@.take(i as int);
        match calculated[i] {
            Calculation::Dhash(d) => {
                out.push(d);
            },
            Calculation::Thumbnail => {},
        }
        proof {
            assert(calculated@.take(i + 1 as int).drop_last() =~= pre);
            assert(calculated@.take(i + 1 as int).last() == calculated@[i as int]);
        }
        i = i + 1;
    }
    proof {
        assert(calculated@.take(calculated@.len() as int) =~= calculated@);
    }
    out
}

} // verus!
