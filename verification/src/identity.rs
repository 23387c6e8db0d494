//! The reordering identity: summing sample by sample and summing slot by
//! slot give the same value, as integers and hence in the field.

use crate::field::order;
use crate::field::FieldElement;
use crate::projection::column_sum;
use crate::projection::dot;
use crate::projection::element;
use crate::projection::is_pass_digest;
use crate::projection::is_pass_output;
use crate::projection::pass_digest_slot;
use crate::projection::pass_scalar;
use crate::projection::projected_sum;
use crate::projection::recombined_sum;
use crate::projection::residues;
use crate::projection::row_sum;
use crate::projection::Config;
use crate::projection::PassOutput;
use vstd::arithmetic::div_mod::lemma_add_mod_noop;
use vstd::arithmetic::div_mod::lemma_mul_mod_noop_left;
use vstd::prelude::*;

verus! {

/// With no samples, every slot-by-slot sum is zero.
proof fn lemma_recombined_of_nothing(cfg: Config, v: Seq<int>, w: Seq<int>, n: nat)
    ensures
        recombined_sum(cfg, v, w, 0, n) == 0,
    decreases n,
{
    if n > 0 {
        lemma_recombined_of_nothing(cfg, v, w, (n - 1) as nat);
        assert(column_sum(cfg, v, (n - 1) as nat, 0) == 0);
    }
}

/// One more sample adds its weighted row sum to the slot-by-slot sum.
proof fn lemma_recombined_step(cfg: Config, v: Seq<int>, w: Seq<int>, m: nat, n: nat)
    ensures
        recombined_sum(cfg, v, w, m + 1, n) == recombined_sum(cfg, v, w, m, n) + v[m as int]
            * row_sum(cfg, w, m, n),
    decreases n,
{
    if n == 0 {
        assert(v[m as int] * 0 == 0);
    } else {
        let k = (n - 1) as nat;
        lemma_recombined_step(cfg, v, w, m, k);
        let c = column_sum(cfg, v, k, m);
        let e = element(cfg, m, k);
        let vm = v[m as int];
        let wk = w[k as int];
        let r = row_sum(cfg, w, m, k);
        assert(column_sum(cfg, v, k, m + 1) == c + e * vm);
        assert(row_sum(cfg, w, m, n) == r + e * wk);
        assert((c + e * vm) * wk + vm * r == c * wk + vm * (r + e * wk)) by (nonlinear_arith);
    }
}

/// For any configuration, any sample sequence `v` and any weight vector `w`,
/// the sum over the first `m` samples of `v[i]` times the row sum of sample
/// `i` equals the sum over all slots of `w[j]` times the column sum of slot
/// `j`.
pub proof fn lemma_reordering_identity(cfg: Config, v: Seq<int>, w: Seq<int>, m: nat)
    ensures
        projected_sum(cfg, v, w, m) == recombined_sum(cfg, v, w, m, cfg.digest_width as nat),
    decreases m,
{
    let width = cfg.digest_width as nat;
    if m == 0 {
        lemma_recombined_of_nothing(cfg, v, w, width);
    } else {
        lemma_reordering_identity(cfg, v, w, (m - 1) as nat);
        lemma_recombined_step(cfg, v, w, (m - 1) as nat, width);
    }
}

/// Recombining residues of the column sums gives the residue of the
/// slot-by-slot sum.
proof fn lemma_dot_of_residues(cfg: Config, v: Seq<int>, w: Seq<int>, d: Seq<int>, m: nat, n: nat)
    requires
        n <= d.len(),
        forall|j: int| 0 <= j < n ==> #[trigger] d[j] == column_sum(cfg, v, j as nat, m) % order(),
    ensures
        dot(d, w, n) % order() == recombined_sum(cfg, v, w, m, n) % order(),
    decreases n,
{
    if n > 0 {
        let k = (n - 1) as nat;
        lemma_dot_of_residues(cfg, v, w, d, m, k);
        let p = order();
        let c = column_sum(cfg, v, k, m);
        let wk = w[k as int];
        assert(d[k as int] == c % p);
        lemma_mul_mod_noop_left(c, wk, p);
        lemma_add_mod_noop(dot(d, w, k), (c % p) * wk, p);
        lemma_add_mod_noop(recombined_sum(cfg, v, w, m, k), c * wk, p);
    }
}

/// The scalar of a pass equals the digest of a pass over the same samples,
/// recombined with the same weights: whatever the configuration, the samples
/// and the weights.
pub proof fn lemma_scalar_matches_recombined_digest(
    cfg: Config,
    v: Seq<int>,
    w: Seq<int>,
    digest: Seq<FieldElement>,
)
    requires
        is_pass_digest(cfg, v, digest),
    ensures
        pass_scalar(cfg, v, w) == dot(residues(digest), w, cfg.digest_width as nat) % order(),
{
    lemma_reordering_identity(cfg, v, w, v.len());
    lemma_dot_of_residues(cfg, v, w, residues(digest), v.len(), cfg.digest_width as nat);
}

/// Two results of a pass over the same samples with the same weights under
/// the same configuration are equal, scalar and digest.
pub proof fn lemma_pass_is_deterministic(
    cfg: Config,
    v: Seq<int>,
    w: Seq<int>,
    first: PassOutput,
    second: PassOutput,
)
    requires
        is_pass_output(cfg, v, w, first),
        is_pass_output(cfg, v, w, second),
    ensures
        first.scalar == second.scalar,
        first.digest@ == second.digest@,
{
    first.scalar.lemma_value_determines(second.scalar);
    assert forall|j: int| 0 <= j < first.digest@.len() implies first.digest@[j]
        == second.digest@[j] by {
        first.digest@[j].lemma_value_determines(second.digest@[j]);
    }
    assert(first.digest@ =~= second.digest@);
}

/// With no samples the scalar is zero and so is every slot of the digest.
pub proof fn lemma_empty_input(cfg: Config, w: Seq<int>, j: nat)
    ensures
        pass_scalar(cfg, Seq::<int>::empty(), w) == 0,
        pass_digest_slot(cfg, Seq::<int>::empty(), j) == 0,
{
}

/// With the single sample `x` the scalar is `x` times the row sum of sample 0,
/// and slot `j` of the digest is `element(0, j) * x`, both reduced into the
/// field.
pub proof fn lemma_single_sample(cfg: Config, x: int, w: Seq<int>, j: nat)
    ensures
        pass_scalar(cfg, seq![x], w) == (x * row_sum(cfg, w, 0, cfg.digest_width as nat))
            % order(),
        pass_digest_slot(cfg, seq![x], j) == (element(cfg, 0, j) * x) % order(),
{
    let v = seq![x];
    assert(v.len() == 1);
    assert(v[0] == x);
    assert(projected_sum(cfg, v, w, 0) == 0);
    assert(projected_sum(cfg, v, w, 1) == projected_sum(cfg, v, w, 0) + v[0] * row_sum(
        cfg,
        w,
        0,
        cfg.digest_width as nat,
    ));
    assert(column_sum(cfg, v, j, 0) == 0);
    assert(column_sum(cfg, v, j, 1) == column_sum(cfg, v, j, 0) + element(cfg, 0, j) * v[0]);
}

} // verus!
