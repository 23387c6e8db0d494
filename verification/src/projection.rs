//! The projection accumulator and the consistency verifier.
//!
//! A pass walks the samples in order. For each sample it draws one field
//! element per digest slot from the stream, in slot order, and folds the
//! sample into every slot of the digest and into a running scalar.

use crate::field::order;
use crate::field::to_field;
use crate::field::FieldElement;
use crate::generator::draw;
use crate::generator::state_after;
use crate::generator::Generator;
use crate::generator::DEFAULT_INCREMENT;
use crate::generator::DEFAULT_MULTIPLIER;
use crate::generator::DEFAULT_SEED;
use vstd::arithmetic::div_mod::lemma_add_mod_noop;
use vstd::arithmetic::div_mod::lemma_mul_mod_noop_right;
use vstd::prelude::*;

verus! {

/// The digest width of the reference configuration.
pub const HASH_LENGTH: usize = 128;

/// The sample range of the reference configuration: 8-bit intensities.
pub const PIXEL_RANGE: i32 = 256;

/// What a run is configured with: the stream's seed and constants, the
/// digest width, and the exclusive upper bound of the sample range.
#[derive(Clone, Copy, Debug)]
pub struct Config {
    pub seed: u128,
    pub multiplier: u64,
    pub increment: u64,
    pub digest_width: usize,
    pub sample_range: i32,
}

/// Why a pass was refused.
#[derive(Clone, Copy, Debug, PartialEq, Eq)]
pub enum ProjectionError {
    /// The weight vector's length is not the configured digest width.
    WidthMismatch,
    /// The sample at `index` is the first one outside the sample range.
    SampleOutOfRange { index: usize },
}

/// What a pass produces.
#[derive(Debug)]
pub struct PassOutput {
    pub scalar: FieldElement,
    pub digest: Vec<FieldElement>,
}

/// The samples as integers.
pub open spec fn sample_values(samples: Seq<i32>) -> Seq<int> {
    Seq::new(samples.len(), |i: int| samples[i] as int)
}

/// The field elements as their residues.
pub open spec fn residues(elements: Seq<FieldElement>) -> Seq<int> {
    Seq::new(elements.len(), |i: int| elements[i].value())
}

/// Whether a sample lies in the configured range `[0, sample_range)`.
pub open spec fn in_range(cfg: Config, sample: i32) -> bool {
    0 <= sample < cfg.sample_range
}

/// Whether every sample lies in the configured range.
pub open spec fn all_in_range(cfg: Config, samples: Seq<i32>) -> bool {
    forall|i: int| 0 <= i < samples.len() ==> in_range(cfg, #[trigger] samples[i])
}

/// Whether `index` is the position of the first sample outside the range.
pub open spec fn is_first_out_of_range(cfg: Config, samples: Seq<i32>, index: int) -> bool {
    &&& 0 <= index < samples.len()
    &&& !in_range(cfg, samples[index])
    &&& forall|i: int| 0 <= i < index ==> in_range(cfg, #[trigger] samples[i])
}

/// The field element drawn for sample `i` and digest slot `j`: draws are made
/// sample by sample, and within a sample slot by slot.
pub open spec fn element(cfg: Config, i: nat, j: nat) -> int {
    to_field(
        draw(
            cfg.multiplier as int,
            cfg.increment as int,
            cfg.seed as int,
            i * (cfg.digest_width as nat) + j,
        ),
    )
}

/// The sum over the slots `j < n` of `element(i, j) * w[j]`, as an integer.
pub open spec fn row_sum(cfg: Config, w: Seq<int>, i: nat, n: nat) -> int
    decreases n,
{
    if n == 0 {
        0
    } else {
        row_sum(cfg, w, i, (n - 1) as nat) + element(cfg, i, (n - 1) as nat) * w[n - 1]
    }
}

/// The sum over the samples `i < m` of `element(i, j) * v[i]`, as an integer.
pub open spec fn column_sum(cfg: Config, v: Seq<int>, j: nat, m: nat) -> int
    decreases m,
{
    if m == 0 {
        0
    } else {
        column_sum(cfg, v, j, (m - 1) as nat) + element(cfg, (m - 1) as nat, j) * v[m - 1]
    }
}

/// The sum over the samples `i < m` of `v[i]` times the whole row sum of
/// sample `i`, as an integer.
pub open spec fn projected_sum(cfg: Config, v: Seq<int>, w: Seq<int>, m: nat) -> int
    decreases m,
{
    if m == 0 {
        0
    } else {
        projected_sum(cfg, v, w, (m - 1) as nat) + v[m - 1] * row_sum(
            cfg,
            w,
            (m - 1) as nat,
            cfg.digest_width as nat,
        )
    }
}

/// The sum over the slots `j < n` of `w[j]` times the column sum of slot `j`
/// over the samples `i < m`, as an integer.
pub open spec fn recombined_sum(cfg: Config, v: Seq<int>, w: Seq<int>, m: nat, n: nat) -> int
    decreases n,
{
    if n == 0 {
        0
    } else {
        recombined_sum(cfg, v, w, m, (n - 1) as nat) + column_sum(cfg, v, (n - 1) as nat, m)
            * w[n - 1]
    }
}

/// The sum over `j < n` of `d[j] * w[j]`, as an integer.
pub open spec fn dot(d: Seq<int>, w: Seq<int>, n: nat) -> int
    decreases n,
{
    if n == 0 {
        0
    } else {
        dot(d, w, (n - 1) as nat) + d[n - 1] * w[n - 1]
    }
}

/// The scalar of a pass over the samples `v` with weights `w`.
pub open spec fn pass_scalar(cfg: Config, v: Seq<int>, w: Seq<int>) -> int {
    projected_sum(cfg, v, w, v.len()) % order()
}

/// Slot `j` of the digest of a pass over the samples `v`.
pub open spec fn pass_digest_slot(cfg: Config, v: Seq<int>, j: nat) -> int {
    column_sum(cfg, v, j, v.len()) % order()
}

/// Whether `digest` is the digest of a pass over the samples `v`.
pub open spec fn is_pass_digest(cfg: Config, v: Seq<int>, digest: Seq<FieldElement>) -> bool {
    &&& digest.len() == cfg.digest_width
    &&& forall|j: int|
        0 <= j < digest.len() ==> (#[trigger] digest[j]).value() == pass_digest_slot(
            cfg,
            v,
            j as nat,
        )
}

/// Whether `out` is what a pass over the samples `v` with weights `w` gives.
pub open spec fn is_pass_output(cfg: Config, v: Seq<int>, w: Seq<int>, out: PassOutput) -> bool {
    &&& out.scalar.value() == pass_scalar(cfg, v, w)
    &&& is_pass_digest(cfg, v, out.digest@)
}

impl Config {
    /// The reference configuration: the reference stream, 128 digest slots
    /// and samples in `[0, 256)`.
    pub fn reference() -> (r: Self)
        ensures
            r == (Config {
                seed: DEFAULT_SEED,
                multiplier: DEFAULT_MULTIPLIER,
                increment: DEFAULT_INCREMENT,
                digest_width: HASH_LENGTH,
                sample_range: PIXEL_RANGE,
            }),
    {
        Config {
            seed: DEFAULT_SEED,
            multiplier: DEFAULT_MULTIPLIER,
            increment: DEFAULT_INCREMENT,
            digest_width: HASH_LENGTH,
            sample_range: PIXEL_RANGE,
        }
    }
}

/// The state of the stream once `k` values have been drawn.
pub open spec fn stream_state(cfg: Config, k: nat) -> int {
    state_after(cfg.multiplier as int, cfg.increment as int, cfg.seed as int, k)
}

/// Whether `generator` runs `cfg`'s recurrence and has drawn `k` values.
pub open spec fn positioned(cfg: Config, generator: Generator, k: nat) -> bool {
    &&& generator.multiplier == cfg.multiplier
    &&& generator.increment == cfg.increment
    &&& generator.state as int == stream_state(cfg, k)
}

/// The position of the first sample outside the range, if there is one.
pub fn first_out_of_range(cfg: &Config, samples: &[i32]) -> (r: Option<usize>)
    ensures
        match r {
            Some(index) => is_first_out_of_range(*cfg, samples@, index as int),
            None => all_in_range(*cfg, samples@),
        },
{
    let mut i: usize = 0;
    while i < samples.len()
        invariant
            i <= samples.len(),
            forall|k: int| 0 <= k < i ==> in_range(*cfg, #[trigger] samples@[k]),
        decreases samples.len() - i,
    {
        let sample: i32 = samples[i];
        if sample < 0 || sample >= cfg.sample_range {
            return Some(i);
        }
        i += 1;
    }
    None
}

/// A digest of `width` zeros.
fn zero_digest(width: usize) -> (digest: Vec<FieldElement>)
    ensures
        digest@.len() == width,
        forall|j: int| 0 <= j < width ==> (#[trigger] digest@[j]).value() == 0,
{
    let mut digest: Vec<FieldElement> = Vec::new();
    let mut j: usize = 0;
    while j < width
        invariant
            j <= width,
            digest@.len() == j,
            forall|k: int| 0 <= k < j ==> (#[trigger] digest@[k]).value() == 0,
        decreases width - j,
    {
        digest.push(FieldElement::zero());
        j += 1;
    }
    digest
}

/// Embeds a sample of the configured range into the field.
fn embed_sample(sample: i32) -> (r: FieldElement)
    requires
        0 <= sample,
    ensures
        r.value() == sample as int,
{
    FieldElement::from_raw(sample as u64)
}

/// Folds sample `i` into every slot of the digest, drawing one element per
/// slot, and returns the sample's row sum against the weights.
fn absorb_weighted(
    cfg: &Config,
    generator: &mut Generator,
    digest: &mut Vec<FieldElement>,
    coeffs: &[FieldElement],
    sample: FieldElement,
    Ghost(v): Ghost<Seq<int>>,
    Ghost(i): Ghost<nat>,
) -> (a_point: FieldElement)
    requires
        positioned(*cfg, *old(generator), i * (cfg.digest_width as nat)),
        old(digest)@.len() == cfg.digest_width,
        coeffs@.len() == cfg.digest_width,
        sample.value() == v[i as int],
        forall|j: int|
            0 <= j < cfg.digest_width ==> (#[trigger] old(digest)@[j]).value() == column_sum(
                *cfg,
                v,
                j as nat,
                i,
            ) % order(),
    ensures
        positioned(*cfg, *final(generator), (i + 1) * (cfg.digest_width as nat)),
        final(digest)@.len() == cfg.digest_width,
        forall|j: int|
            0 <= j < cfg.digest_width ==> (#[trigger] final(digest)@[j]).value() == column_sum(
                *cfg,
                v,
                j as nat,
                i + 1,
            ) % order(),
        a_point.value() == row_sum(*cfg, residues(coeffs@), i, cfg.digest_width as nat) % order(),
{
    let width: usize = cfg.digest_width;
    let ghost w = residues(coeffs@);
    let mut a_point: FieldElement = FieldElement::zero();
    let mut j: usize = 0;
    while j < width
        invariant
            j <= width,
            width == cfg.digest_width,
            w == residues(coeffs@),
            coeffs@.len() == width,
            digest@.len() == width,
            sample.value() == v[i as int],
            positioned(*cfg, *generator, i * (width as nat) + (j as nat)),
            a_point.value() == row_sum(*cfg, w, i, j as nat) % order(),
            forall|k: int|
                0 <= k < j ==> (#[trigger] digest@[k]).value() == column_sum(
                    *cfg,
                    v,
                    k as nat,
                    i + 1,
                ) % order(),
            forall|k: int|
                j <= k < width ==> (#[trigger] digest@[k]).value() == column_sum(
                    *cfg,
                    v,
                    k as nat,
                    i,
                ) % order(),
        decreases width - j,
    {
        let raw: u64 = generator.advance();
        let r: FieldElement = FieldElement::from_raw(raw);
        assert(r.value() == element(*cfg, i, j as nat));
        let weighted: FieldElement = r.mul(coeffs[j]);
        let ghost row = row_sum(*cfg, w, i, j as nat);
        let ghost col = column_sum(*cfg, v, j as nat, i);
        proof {
            assert(w[j as int] == coeffs@[j as int].value());
            lemma_add_mod_noop(row, r.value() * w[j as int], order());
            lemma_add_mod_noop(col, r.value() * v[i as int], order());
            assert(column_sum(*cfg, v, j as nat, i + 1) == col + r.value() * v[i as int]);
        }
        a_point = a_point.add(weighted);
        let slot: FieldElement = digest[j].add(r.mul(sample));
        digest.set(j, slot);
        j += 1;
    }
    proof {
        assert(i * (width as nat) + width == (i + 1) * (width as nat)) by (nonlinear_arith);
    }
    a_point
}

/// Folds sample `i` into every slot of the digest, drawing one element per
/// slot.
fn absorb(
    cfg: &Config,
    generator: &mut Generator,
    digest: &mut Vec<FieldElement>,
    sample: FieldElement,
    Ghost(v): Ghost<Seq<int>>,
    Ghost(i): Ghost<nat>,
)
    requires
        positioned(*cfg, *old(generator), i * (cfg.digest_width as nat)),
        old(digest)@.len() == cfg.digest_width,
        sample.value() == v[i as int],
        forall|j: int|
            0 <= j < cfg.digest_width ==> (#[trigger] old(digest)@[j]).value() == column_sum(
                *cfg,
                v,
                j as nat,
                i,
            ) % order(),
    ensures
        positioned(*cfg, *final(generator), (i + 1) * (cfg.digest_width as nat)),
        final(digest)@.len() == cfg.digest_width,
        forall|j: int|
            0 <= j < cfg.digest_width ==> (#[trigger] final(digest)@[j]).value() == column_sum(
                *cfg,
                v,
                j as nat,
                i + 1,
            ) % order(),
{
    let width: usize = cfg.digest_width;
    let mut j: usize = 0;
    while j < width
        invariant
            j <= width,
            width == cfg.digest_width,
            digest@.len() == width,
            sample.value() == v[i as int],
            positioned(*cfg, *generator, i * (width as nat) + (j as nat)),
            forall|k: int|
                0 <= k < j ==> (#[trigger] digest@[k]).value() == column_sum(
                    *cfg,
                    v,
                    k as nat,
                    i + 1,
                ) % order(),
            forall|k: int|
                j <= k < width ==> (#[trigger] digest@[k]).value() == column_sum(
                    *cfg,
                    v,
                    k as nat,
                    i,
                ) % order(),
        decreases width - j,
    {
        let raw: u64 = generator.advance();
        let r: FieldElement = FieldElement::from_raw(raw);
        assert(r.value() == element(*cfg, i, j as nat));
        let ghost col = column_sum(*cfg, v, j as nat, i);
        proof {
            lemma_add_mod_noop(col, r.value() * v[i as int], order());
            assert(column_sum(*cfg, v, j as nat, i + 1) == col + r.value() * v[i as int]);
        }
        let slot: FieldElement = digest[j].add(r.mul(sample));
        digest.set(j, slot);
        j += 1;
    }
    proof {
        assert(i * (width as nat) + width == (i + 1) * (width as nat)) by (nonlinear_arith);
    }
}

/// Runs one pass: the scalar and the digest of the samples under `cfg`,
/// with the weights `coeffs`.
///
/// The pass is refused, before anything is accumulated, when the weight
/// vector has the wrong length or a sample lies outside the sample range.
pub fn run_pass(cfg: &Config, samples: &[i32], coeffs: &[FieldElement]) -> (r: Result<
    PassOutput,
    ProjectionError,
>)
    ensures
        match r {
            Ok(out) => {
                &&& coeffs@.len() == cfg.digest_width
                &&& all_in_range(*cfg, samples@)
                &&& is_pass_output(*cfg, sample_values(samples@), residues(coeffs@), out)
            },
            Err(ProjectionError::WidthMismatch) => coeffs@.len() != cfg.digest_width,
            Err(ProjectionError::SampleOutOfRange { index }) => {
                &&& coeffs@.len() == cfg.digest_width
                &&& is_first_out_of_range(*cfg, samples@, index as int)
            },
        },
{
    if coeffs.len() != cfg.digest_width {
        return Err(ProjectionError::WidthMismatch);
    }
    if let Some(index) = first_out_of_range(cfg, samples) {
        return Err(ProjectionError::SampleOutOfRange { index });
    }
    let ghost v = sample_values(samples@);
    let ghost w = residues(coeffs@);
    let mut generator: Generator = Generator::new(cfg.multiplier, cfg.increment, cfg.seed);
    let mut digest: Vec<FieldElement> = zero_digest(cfg.digest_width);
    let mut scalar: FieldElement = FieldElement::zero();
    let mut i: usize = 0;
    proof {
        assert(0 * (cfg.digest_width as nat) == 0);
    }
    while i < samples.len()
        invariant
            i <= samples.len(),
            v == sample_values(samples@),
            w == residues(coeffs@),
            all_in_range(*cfg, samples@),
            coeffs@.len() == cfg.digest_width,
            digest@.len() == cfg.digest_width,
            positioned(*cfg, generator, (i as nat) * (cfg.digest_width as nat)),
            scalar.value() == projected_sum(*cfg, v, w, i as nat) % order(),
            forall|j: int|
                0 <= j < cfg.digest_width ==> (#[trigger] digest@[j]).value() == column_sum(
                    *cfg,
                    v,
                    j as nat,
                    i as nat,
                ) % order(),
        decreases samples.len() - i,
    {
        let sample: i32 = samples[i];
        assert(in_range(*cfg, samples@[i as int]));
        let v_point: FieldElement = embed_sample(sample);
        let a_point: FieldElement = absorb_weighted(
            cfg,
            &mut generator,
            &mut digest,
            coeffs,
            v_point,
            Ghost(v),
            Ghost(i as nat),
        );
        proof {
            let row = row_sum(*cfg, w, i as nat, cfg.digest_width as nat);
            lemma_mul_mod_noop_right(v[i as int], row, order());
            lemma_add_mod_noop(projected_sum(*cfg, v, w, i as nat), v[i as int] * row, order());
        }
        scalar = scalar.add(v_point.mul(a_point));
        i += 1;
    }
    Ok(PassOutput { scalar, digest })
}

/// Runs the digest side of a pass alone: the digest of the samples under
/// `cfg`, from a freshly seeded stream.
///
/// The pass is refused, before anything is accumulated, when a sample lies
/// outside the sample range.
pub fn digest_pass(cfg: &Config, samples: &[i32]) -> (r: Result<
    Vec<FieldElement>,
    ProjectionError,
>)
    ensures
        match r {
            Ok(digest) => {
                &&& all_in_range(*cfg, samples@)
                &&& is_pass_digest(*cfg, sample_values(samples@), digest@)
            },
            Err(ProjectionError::WidthMismatch) => false,
            Err(ProjectionError::SampleOutOfRange { index }) => is_first_out_of_range(
                *cfg,
                samples@,
                index as int,
            ),
        },
{
    if let Some(index) = first_out_of_range(cfg, samples) {
        return Err(ProjectionError::SampleOutOfRange { index });
    }
    let ghost v = sample_values(samples@);
    let mut generator: Generator = Generator::new(cfg.multiplier, cfg.increment, cfg.seed);
    let mut digest: Vec<FieldElement> = zero_digest(cfg.digest_width);
    let mut i: usize = 0;
    proof {
        assert(0 * (cfg.digest_width as nat) == 0);
    }
    while i < samples.len()
        invariant
            i <= samples.len(),
            v == sample_values(samples@),
            all_in_range(*cfg, samples@),
            digest@.len() == cfg.digest_width,
            positioned(*cfg, generator, (i as nat) * (cfg.digest_width as nat)),
            forall|j: int|
                0 <= j < cfg.digest_width ==> (#[trigger] digest@[j]).value() == column_sum(
                    *cfg,
                    v,
                    j as nat,
                    i as nat,
                ) % order(),
        decreases samples.len() - i,
    {
        let sample: i32 = samples[i];
        assert(in_range(*cfg, samples@[i as int]));
        let v_point: FieldElement = embed_sample(sample);
        absorb(cfg, &mut generator, &mut digest, v_point, Ghost(v), Ghost(i as nat));
        i += 1;
    }
    Ok(digest)
}

/// Recombines a digest with the weights: the sum of `digest[j] * coeffs[j]`
/// in the field. `None` when the two lengths differ.
pub fn recombine(digest: &[FieldElement], coeffs: &[FieldElement]) -> (r: Option<FieldElement>)
    ensures
        digest@.len() != coeffs@.len() <==> r.is_none(),
        r.is_some() ==> r.unwrap().value() == dot(
            residues(digest@),
            residues(coeffs@),
            digest@.len(),
        ) % order(),
{
    if digest.len() != coeffs.len() {
        return None;
    }
    let ghost d = residues(digest@);
    let ghost w = residues(coeffs@);
    let mut total: FieldElement = FieldElement::zero();
    let mut j: usize = 0;
    while j < digest.len()
        invariant
            j <= digest.len(),
            digest@.len() == coeffs@.len(),
            d == residues(digest@),
            w == residues(coeffs@),
            total.value() == dot(d, w, j as nat) % order(),
        decreases digest.len() - j,
    {
        proof {
            lemma_add_mod_noop(dot(d, w, j as nat), d[j as int] * w[j as int], order());
        }
        total = total.add(digest[j].mul(coeffs[j]));
        j += 1;
    }
    Some(total)
}

/// Whether the scalar claimed by a pass equals the scalar recombined from a
/// digest, exactly.
pub fn scalars_agree(claimed: &FieldElement, recombined: &FieldElement) -> (r: bool)
    ensures
        r == (claimed.value() == recombined.value()),
{
    claimed.equals(recombined)
}

/// Checks a run against itself: one pass gives the claimed scalar, an
/// independent digest pass from a fresh stream gives a digest, and the digest
/// recombined with the weights must equal the claimed scalar.
///
/// On every input that the passes accept the check succeeds.
pub fn verify(cfg: &Config, samples: &[i32], coeffs: &[FieldElement]) -> (r: Result<
    bool,
    ProjectionError,
>)
    ensures
        match r {
            Ok(consistent) => {
                &&& consistent
                &&& coeffs@.len() == cfg.digest_width
                &&& all_in_range(*cfg, samples@)
            },
            Err(ProjectionError::WidthMismatch) => coeffs@.len() != cfg.digest_width,
            Err(ProjectionError::SampleOutOfRange { index }) => {
                &&& coeffs@.len() == cfg.digest_width
                &&& is_first_out_of_range(*cfg, samples@, index as int)
            },
        },
{
    let claimed: PassOutput = match run_pass(cfg, samples, coeffs) {
        Ok(out) => out,
        Err(e) => {
            return Err(e);
        },
    };
    let digest: Vec<FieldElement> = match digest_pass(cfg, samples) {
        Ok(digest) => digest,
        Err(e) => {
            return Err(e);
        },
    };
    proof {
        crate::identity::lemma_scalar_matches_recombined_digest(
            *cfg,
            sample_values(samples@),
            residues(coeffs@),
            digest@,
        );
    }
    match recombine(digest.as_slice(), coeffs) {
        Some(recombined) => Ok(scalars_agree(&claimed.scalar, &recombined)),
        None => Ok(false),
    }
}

} // verus!
