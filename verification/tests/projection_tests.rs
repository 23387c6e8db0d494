use projection_digest::field::FieldElement;
use projection_digest::field::ORDER;
use projection_digest::generator::Generator;
use projection_digest::generator::DEFAULT_INCREMENT;
use projection_digest::generator::DEFAULT_MULTIPLIER;
use projection_digest::generator::DEFAULT_SEED;
use projection_digest::projection::digest_pass;
use projection_digest::projection::first_out_of_range;
use projection_digest::projection::recombine;
use projection_digest::projection::run_pass;
use projection_digest::projection::scalars_agree;
use projection_digest::projection::verify;
use projection_digest::projection::Config;
use projection_digest::projection::ProjectionError;
use projection_digest::projection::HASH_LENGTH;
use projection_digest::projection::PIXEL_RANGE;

fn config(width: usize) -> Config {
    Config {
        seed: DEFAULT_SEED,
        multiplier: DEFAULT_MULTIPLIER,
        increment: DEFAULT_INCREMENT,
        digest_width: width,
        sample_range: 256,
    }
}

fn weights(seed: u128, width: usize) -> Vec<FieldElement> {
    let mut g = Generator::new(DEFAULT_MULTIPLIER, DEFAULT_INCREMENT, seed);
    (0..width).map(|_| FieldElement::from_raw(g.advance())).collect()
}

fn canonical(elements: &[FieldElement]) -> Vec<u64> {
    elements.iter().map(|e| e.to_canonical()).collect()
}

fn mul_mod(a: u64, b: u64) -> u64 {
    ((a as u128 * b as u128) % ORDER as u128) as u64
}

fn add_mod(a: u64, b: u64) -> u64 {
    ((a as u128 + b as u128) % ORDER as u128) as u64
}

#[test]
fn reference_config_values() {
    let cfg = Config::reference();
    assert_eq!(cfg.seed, 3091352403337663489);
    assert_eq!(cfg.multiplier, 3935559000370003845);
    assert_eq!(cfg.increment, 2691343689449507681);
    assert_eq!(cfg.digest_width, 128);
    assert_eq!(cfg.sample_range, 256);
    assert_eq!(HASH_LENGTH, 128);
    assert_eq!(PIXEL_RANGE, 256);
}

#[test]
fn concrete_scenario_width_four() {
    let cfg = config(4);
    let w = weights(42, 4);
    assert_eq!(
        canonical(&w),
        vec![
            13865670658480011601,
            17365263092540448243,
            417848617278120969,
            17719054706893274760
        ]
    );
    let out = run_pass(&cfg, &[1, 2, 3], &w).unwrap();
    assert_eq!(out.scalar.to_canonical(), 11145126640639316234);
    assert_eq!(
        canonical(&out.digest),
        vec![
            12994746557712648933,
            10626664801486702483,
            2039827078092166351,
            13145329945943395960
        ]
    );
    let digest = digest_pass(&cfg, &[1, 2, 3]).unwrap();
    assert_eq!(canonical(&digest), canonical(&out.digest));
    let recombined = recombine(&digest, &w).unwrap();
    assert_eq!(recombined.to_canonical(), 11145126640639316234);
    assert!(scalars_agree(&out.scalar, &recombined));
    assert_eq!(verify(&cfg, &[1, 2, 3], &w), Ok(true));
}

#[test]
fn empty_input_gives_zeros() {
    let cfg = config(4);
    let w = weights(42, 4);
    let out = run_pass(&cfg, &[], &w).unwrap();
    assert_eq!(out.scalar.to_canonical(), 0);
    assert_eq!(canonical(&out.digest), vec![0, 0, 0, 0]);
    assert_eq!(canonical(&digest_pass(&cfg, &[]).unwrap()), vec![0, 0, 0, 0]);
    assert_eq!(verify(&cfg, &[], &w), Ok(true));
}

#[test]
fn zero_width_gives_an_empty_digest() {
    let cfg = config(0);
    let out = run_pass(&cfg, &[1, 2, 3], &[]).unwrap();
    assert_eq!(out.scalar.to_canonical(), 0);
    assert!(out.digest.is_empty());
    assert_eq!(verify(&cfg, &[1, 2, 3], &[]), Ok(true));
}

#[test]
fn single_sample_by_direct_substitution() {
    let cfg = config(4);
    let w = weights(42, 4);
    let out = run_pass(&cfg, &[5], &w).unwrap();
    let mut g = Generator::new(DEFAULT_MULTIPLIER, DEFAULT_INCREMENT, DEFAULT_SEED);
    let r: Vec<u64> = (0..4).map(|_| g.advance() % ORDER).collect();
    let mut row: u64 = 0;
    for j in 0..4 {
        row = add_mod(row, mul_mod(r[j], w[j].to_canonical()));
        assert_eq!(out.digest[j].to_canonical(), mul_mod(r[j], 5));
    }
    assert_eq!(out.scalar.to_canonical(), mul_mod(5, row));
    assert_eq!(out.scalar.to_canonical(), 15986636203120634358);
    assert_eq!(
        canonical(&out.digest),
        vec![
            16797919669097117346,
            3935592175702587106,
            5133141327406312977,
            136653090612641378
        ]
    );
    assert_eq!(verify(&cfg, &[5], &w), Ok(true));
}

#[test]
fn two_runs_agree() {
    let cfg = config(8);
    let w = weights(7, 8);
    let samples: Vec<i32> = (0..500).map(|i| (i * 37) % 256).collect();
    let first = run_pass(&cfg, &samples, &w).unwrap();
    let second = run_pass(&cfg, &samples, &w).unwrap();
    assert_eq!(first.scalar.to_canonical(), second.scalar.to_canonical());
    assert_eq!(canonical(&first.digest), canonical(&second.digest));
}

#[test]
fn reordering_identity_on_many_samples() {
    let cfg = config(16);
    let w = weights(99, 16);
    let samples: Vec<i32> = (0..2000).map(|i| (i * i + 3 * i) % 256).collect();
    let out = run_pass(&cfg, &samples, &w).unwrap();
    let digest = digest_pass(&cfg, &samples).unwrap();
    let recombined = recombine(&digest, &w).unwrap();
    assert_eq!(out.scalar.to_canonical(), recombined.to_canonical());
    assert_eq!(verify(&cfg, &samples, &w), Ok(true));
}

#[test]
fn one_changed_sample_changes_the_output_and_still_verifies() {
    let cfg = config(4);
    let w = weights(42, 4);
    let mut samples = vec![7; 20];
    let before = run_pass(&cfg, &samples, &w).unwrap();
    samples[12] = 8;
    let after = run_pass(&cfg, &samples, &w).unwrap();
    assert_eq!(before.scalar.to_canonical(), 11504850196207251426);
    assert_eq!(after.scalar.to_canonical(), 78849437293782362);
    assert_eq!(
        canonical(&before.digest),
        vec![
            3289092461945470326,
            5767129566503298483,
            12774759709221086675,
            15769528581355585535
        ]
    );
    assert_eq!(
        canonical(&after.digest),
        vec![
            17316481393718624054,
            7113545063447430385,
            3863250157777587227,
            14697159331909038940
        ]
    );
    assert_eq!(verify(&cfg, &samples, &w), Ok(true));
}

#[test]
fn reference_width_pass() {
    let cfg = Config::reference();
    let w = weights(7, 128);
    let out = run_pass(&cfg, &[0, 255, 17], &w).unwrap();
    assert_eq!(out.scalar.to_canonical(), 11863049808078716902);
    assert_eq!(out.digest.len(), 128);
    assert_eq!(out.digest[0].to_canonical(), 6840769774619399472);
    assert_eq!(out.digest[127].to_canonical(), 10962789570588203893);
    assert_eq!(verify(&cfg, &[0, 255, 17], &w), Ok(true));
}

#[test]
fn wrong_width_is_refused() {
    let cfg = config(4);
    let w = weights(42, 3);
    assert_eq!(run_pass(&cfg, &[1, 2, 3], &w).unwrap_err(), ProjectionError::WidthMismatch);
    assert_eq!(verify(&cfg, &[1, 2, 3], &w), Err(ProjectionError::WidthMismatch));
    assert_eq!(run_pass(&cfg, &[-1], &w).unwrap_err(), ProjectionError::WidthMismatch);
}

#[test]
fn out_of_range_sample_is_refused_at_its_first_position() {
    let cfg = config(4);
    let w = weights(42, 4);
    assert_eq!(
        run_pass(&cfg, &[1, 256, 3, -4], &w).unwrap_err(),
        ProjectionError::SampleOutOfRange { index: 1 }
    );
    assert_eq!(
        run_pass(&cfg, &[-1], &w).unwrap_err(),
        ProjectionError::SampleOutOfRange { index: 0 }
    );
    assert_eq!(
        digest_pass(&cfg, &[0, 255, i32::MAX]).unwrap_err(),
        ProjectionError::SampleOutOfRange { index: 2 }
    );
    assert_eq!(
        verify(&cfg, &[0, 0, 0, i32::MIN], &w),
        Err(ProjectionError::SampleOutOfRange { index: 3 })
    );
    assert!(run_pass(&cfg, &[0, 255], &w).is_ok());
}

#[test]
fn first_out_of_range_finds_the_first_offender() {
    let cfg = config(4);
    assert_eq!(first_out_of_range(&cfg, &[]), None);
    assert_eq!(first_out_of_range(&cfg, &[0, 1, 255]), None);
    assert_eq!(first_out_of_range(&cfg, &[0, 300, -1]), Some(1));
    let empty_range = Config { sample_range: 0, ..cfg };
    assert_eq!(first_out_of_range(&empty_range, &[0]), Some(0));
}

#[test]
fn recombine_is_the_dot_product() {
    let d: Vec<FieldElement> = [2u64, 3, ORDER - 1].iter().map(|n| FieldElement::from_raw(*n)).collect();
    let w: Vec<FieldElement> = [5u64, 7, 2].iter().map(|n| FieldElement::from_raw(*n)).collect();
    assert_eq!(recombine(&d, &w).unwrap().to_canonical(), 29);
    assert_eq!(recombine(&[], &[]).unwrap().to_canonical(), 0);
    assert!(recombine(&d, &w[..2]).is_none());
}

#[test]
fn scalars_agree_is_exact() {
    let a = FieldElement::from_raw(10);
    let b = FieldElement::from_raw(ORDER + 10);
    let c = FieldElement::from_raw(11);
    assert!(scalars_agree(&a, &b));
    assert!(!scalars_agree(&a, &c));
}

#[test]
fn a_different_seed_changes_the_digest() {
    let w = weights(42, 4);
    let first = run_pass(&config(4), &[1, 2, 3], &w).unwrap();
    let other = Config { seed: DEFAULT_SEED + 1, ..config(4) };
    let second = run_pass(&other, &[1, 2, 3], &w).unwrap();
    assert_ne!(canonical(&first.digest), canonical(&second.digest));
    assert_eq!(verify(&other, &[1, 2, 3], &w), Ok(true));
}
