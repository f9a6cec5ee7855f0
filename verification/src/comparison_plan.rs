//! What comparing two datasets decides before any statistic: whether the two
//! may be compared at all, and if so which benchmarks are compared and where
//! each side holds them. The checks run in a fixed order: dataset-level
//! compatibility, then the structure of each dataset, then that some benchmark
//! is shared, then that every shared benchmark is named and sampled alike.
use vstd::prelude::*;
use crate::benchmark::{
    BENCHMARK_DATASET_FORMAT, BENCHMARK_DATASET_FORMAT_VERSION, dataset_check, key_seen, lemma_checked_keys_distinct, measurement_key, measurements_check,
    same_identity, DatasetFacts, MeasurementFacts,
};
use crate::benchmark_compare::{
    canonical, dataset_compatibility, dataset_reason_applies, law_self_comparison_is_the_same_artifact,
    law_compatibility_is_symmetric, law_no_direction_while_unqualified, law_inconclusive_always_has_a_reason,
    decide_spec, ComparisonVerdict, VerdictInput, METHOD_QUALIFIED_FOR_DIRECTION, measurement_compatibility,
    partition_keys, unobservable_hardware, CompareError, ComparedProvenance, IncompatibilityReason,
    MeasurementDisagreement,
};
use crate::check::{string_views, strictly_ascending};
use crate::text::{lemma_str_lt_asymmetric, lemma_str_lt_irreflexive, lemma_str_lt_total, owned, str_eq, str_lt};

verus! {

/// Exactly what the compatibility check reads of one dataset.
pub open spec fn projection(d: DatasetFacts) -> ComparedProvenance {
    ComparedProvenance {
        format: d.format,
        format_version: d.format_version,
        unit: d.unit,
        harness: d.provenance.harness,
        harness_version: d.provenance.harness_version,
        rust_version: d.provenance.rust_version,
        cargo_version: d.provenance.cargo_version,
        image_digest: d.provenance.image_digest,
        platform: d.provenance.platform,
        configuration_fingerprint: d.provenance.configuration_fingerprint,
        execution_fingerprint: d.provenance.execution_fingerprint,
        selection: d.provenance.selection,
        hardware: d.provenance.hardware,
    }
}

/// Both datasets hold a measurement under `k`.
pub open spec fn shares_key(b: DatasetFacts, c: DatasetFacts, k: Seq<char>) -> bool {
    key_seen(b.measurements@, k) && key_seen(c.measurements@, k)
}

/// The position of a measurement with key `k`; a valid dataset holds exactly one.
pub open spec fn key_index(ms: Seq<MeasurementFacts>, k: Seq<char>) -> int {
    choose|i: int| 0 <= i < ms.len() && measurement_key(ms[i]) == k
}

/// The measurement a dataset holds under `k`.
pub open spec fn measurement_at(d: DatasetFacts, k: Seq<char>) -> MeasurementFacts {
    d.measurements@[key_index(d.measurements@, k)]
}

/// Under `k` the two sides name the benchmark differently.
pub open spec fn identity_differs(b: DatasetFacts, c: DatasetFacts, k: Seq<char>) -> bool {
    !same_identity(measurement_at(b, k).identity, measurement_at(c, k).identity)
}

/// Under `k` the two sides were sampled in different modes.
pub open spec fn mode_differs(b: DatasetFacts, c: DatasetFacts, k: Seq<char>) -> bool {
    measurement_at(b, k).sampling_mode != measurement_at(c, k).sampling_mode
}

/// `k` is shared and its two measurements disagree.
pub open spec fn differs_at(b: DatasetFacts, c: DatasetFacts, k: Seq<char>) -> bool {
    shares_key(b, c, k) && (identity_differs(b, c, k) || mode_differs(b, c, k))
}

/// Some dataset-level reason applies.
pub open spec fn dataset_blocked(b: DatasetFacts, c: DatasetFacts) -> bool {
    exists|r: IncompatibilityReason| dataset_reason_applies(projection(b), projection(c), r)
}

/// The two datasets share a key.
pub open spec fn any_shared(b: DatasetFacts, c: DatasetFacts) -> bool {
    exists|k: Seq<char>| shares_key(b, c, k)
}

/// Some shared key names its benchmark differently on the two sides.
pub open spec fn identity_blocked(b: DatasetFacts, c: DatasetFacts) -> bool {
    exists|k: Seq<char>| shares_key(b, c, k) && #[trigger] identity_differs(b, c, k)
}

/// Some shared key was sampled in different modes on the two sides.
pub open spec fn mode_blocked(b: DatasetFacts, c: DatasetFacts) -> bool {
    exists|k: Seq<char>| shares_key(b, c, k) && #[trigger] mode_differs(b, c, k)
}

/// A disagreement records both sides of its key.
pub open spec fn records_disagreement(b: DatasetFacts, c: DatasetFacts, d: MeasurementDisagreement) -> bool {
    &&& d.baseline_identity == measurement_at(b, d.key@).identity
    &&& d.candidate_identity == measurement_at(c, d.key@).identity
    &&& d.baseline_sampling_mode == measurement_at(b, d.key@).sampling_mode
    &&& d.candidate_sampling_mode == measurement_at(c, d.key@).sampling_mode
}

/// The keys of a list of disagreements.
pub open spec fn disagreement_keys(ds: Seq<MeasurementDisagreement>) -> Seq<Seq<char>> {
    ds.map_values(|d: MeasurementDisagreement| d.key@)
}

/// One benchmark both sides hold: its key and where each side holds it.
#[derive(Clone, Debug, PartialEq, Eq)]
pub struct PlannedPair {
    pub key: String,
    pub baseline_index: usize,
    pub candidate_index: usize,
}

/// The keys of a list of pairs.
pub open spec fn pair_keys(ps: Seq<PlannedPair>) -> Seq<Seq<char>> {
    ps.map_values(|p: PlannedPair| p.key@)
}

/// A pair points, on each side, at the measurement under its key.
pub open spec fn pair_locates(b: DatasetFacts, c: DatasetFacts, p: PlannedPair) -> bool {
    &&& p.baseline_index < b.measurements@.len()
    &&& measurement_key(b.measurements@[p.baseline_index as int]) == p.key@
    &&& p.candidate_index < c.measurements@.len()
    &&& measurement_key(c.measurements@[p.candidate_index as int]) == p.key@
}

/// What a comparison of two compatible, valid datasets compares: every shared
/// benchmark, ascending by key, the keys only one side holds, and both
/// compared sides.
#[derive(Clone, Debug, PartialEq, Eq)]
pub struct ComparisonPlan {
    pub pairs: Vec<PlannedPair>,
    pub baseline_only: Vec<String>,
    pub candidate_only: Vec<String>,
    pub baseline_provenance: ComparedProvenance,
    pub candidate_provenance: ComparedProvenance,
    /// A required hardware descriptor was readable on neither side.
    pub unobservable_hardware: bool,
}

/// In a valid list of measurements the position of a key is the one holding it.
proof fn lemma_key_index(ms: Seq<MeasurementFacts>, i: int)
    requires
        measurements_check(ms) is Ok,
        0 <= i < ms.len(),
    ensures
        key_index(ms, measurement_key(ms[i])) == i,
{
    lemma_checked_keys_distinct(ms);
    let k = measurement_key(ms[i]);
    assert(0 <= i < ms.len() && measurement_key(ms[i]) == k);
    let j = key_index(ms, k);
    assert(0 <= j < ms.len() && measurement_key(ms[j]) == k);
    if j < i {
        assert(measurement_key(ms[j]) != measurement_key(ms[i]));
    } else if i < j {
        assert(measurement_key(ms[i]) != measurement_key(ms[j]));
    }
}

/// A valid dataset passes its measurement checks.
proof fn lemma_valid_measurements(d: DatasetFacts)
    requires
        dataset_check(d) is Ok,
    ensures
        measurements_check(d.measurements@) is Ok,
{
}

/// The keys of the measurements, in order.
fn measurement_keys(ms: &Vec<MeasurementFacts>) -> (res: Vec<String>)
    ensures
        string_views(res@).len() == ms@.len(),
        forall|i: int| 0 <= i < ms@.len() ==> string_views(res@)[i] == measurement_key(ms@[i]),
        forall|k: Seq<char>| string_views(res@).contains(k) <==> key_seen(ms@, k),
{
    let mut out: Vec<String> = Vec::new();
    let mut i: usize = 0;
    while i < ms.len()
        invariant
            i <= ms@.len(),
            out@.len() == i,
            forall|j: int| 0 <= j < i ==> (#[trigger] out@[j])@ == measurement_key(ms@[j]),
        decreases ms@.len() - i,
    {
        out.push(owned(ms[i].key()));
        i = i + 1;
    }
    let ghost v = string_views(out@);
    assert forall|k: Seq<char>| v.contains(k) <==> key_seen(ms@, k) by {
        if v.contains(k) {
            let j = choose|j: int| 0 <= j < v.len() && v[j] == k;
            assert(measurement_key(ms@[j]) == k);
        }
        if key_seen(ms@, k) {
            let j = choose|j: int| 0 <= j < ms@.len() && measurement_key(#[trigger] ms@[j]) == k;
            assert(v[j] == k);
        }
    }
    out
}

/// The position of the first measurement under `key`.
fn position_of(ms: &Vec<MeasurementFacts>, key: &str) -> (res: usize)
    requires
        key_seen(ms@, key@),
    ensures
        res < ms@.len(),
        measurement_key(ms@[res as int]) == key@,
{
    let mut i: usize = 0;
    while i < ms.len()
        invariant
            i <= ms@.len(),
            key_seen(ms@, key@),
            forall|j: int| 0 <= j < i ==> measurement_key(#[trigger] ms@[j]) != key@,
        decreases ms@.len() - i,
    {
        if str_eq(ms[i].key(), key) {
            return i;
        }
        i = i + 1;
    }
    proof {
        let j = choose|j: int| 0 <= j < ms@.len() && measurement_key(#[trigger] ms@[j]) == key@;
        assert(measurement_key(ms@[j]) != key@);
    }
    0
}

/// Records one shared key: where each side holds it, and the reasons and the
/// disagreement its two measurements give.
fn record_pair(
    bm: &Vec<MeasurementFacts>,
    cm: &Vec<MeasurementFacts>,
    key: &String,
    found: &mut Vec<IncompatibilityReason>,
    disagreements: &mut Vec<MeasurementDisagreement>,
) -> (pair: PlannedPair)
    requires
        key_seen(bm@, key@),
        key_seen(cm@, key@),
    ensures
        pair.key@ == key@,
        pair.baseline_index < bm@.len(),
        measurement_key(bm@[pair.baseline_index as int]) == key@,
        pair.candidate_index < cm@.len(),
        measurement_key(cm@[pair.candidate_index as int]) == key@,
        ({
            let bmeas = bm@[pair.baseline_index as int];
            let cmeas = cm@[pair.candidate_index as int];
            let id = !same_identity(bmeas.identity, cmeas.identity);
            let md = bmeas.sampling_mode != cmeas.sampling_mode;
            &&& final(found)@ == old(found)@ + (if id {
                seq![IncompatibilityReason::BenchmarkIdentity]
            } else {
                seq![]
            }) + (if md {
                seq![IncompatibilityReason::SamplingMode]
            } else {
                seq![]
            })
            &&& final(disagreements)@ == if id || md {
                old(disagreements)@.push(
                    MeasurementDisagreement {
                        key: final(disagreements)@.last().key,
                        baseline_identity: bmeas.identity,
                        candidate_identity: cmeas.identity,
                        baseline_sampling_mode: bmeas.sampling_mode,
                        candidate_sampling_mode: cmeas.sampling_mode,
                    },
                )
            } else {
                old(disagreements)@
            }
            &&& (id || md) ==> final(disagreements)@.last().key@ == key@
        }),
{
    let bi = position_of(bm, key.as_str());
    let ci = position_of(cm, key.as_str());
    measurement_compatibility(
        key.as_str(),
        &bm[bi].identity,
        &cm[ci].identity,
        bm[bi].sampling_mode,
        cm[ci].sampling_mode,
        found,
        disagreements,
    );
    PlannedPair { key: key.clone(), baseline_index: bi, candidate_index: ci }
}

/// The shared keys differ somewhere among the first `n`.
pub open spec fn identity_differs_before(b: DatasetFacts, c: DatasetFacts, keys: Seq<Seq<char>>, n: int) -> bool {
    exists|p: int| 0 <= p < n && #[trigger] identity_differs(b, c, keys[p])
}

/// The shared keys were sampled differently somewhere among the first `n`.
pub open spec fn mode_differs_before(b: DatasetFacts, c: DatasetFacts, keys: Seq<Seq<char>>, n: int) -> bool {
    exists|p: int| 0 <= p < n && #[trigger] mode_differs(b, c, keys[p])
}

/// Checks every shared key in order: where each side holds it, which reasons
/// its measurements give, and the disagreements, in key order.
fn check_shared(
    Ghost(b): Ghost<DatasetFacts>,
    Ghost(c): Ghost<DatasetFacts>,
    bm: &Vec<MeasurementFacts>,
    cm: &Vec<MeasurementFacts>,
    common: &Vec<String>,
) -> (res: (Vec<PlannedPair>, Vec<IncompatibilityReason>, Vec<MeasurementDisagreement>))
    requires
        bm@ == b.measurements@,
        cm@ == c.measurements@,
        measurements_check(bm@) is Ok,
        measurements_check(cm@) is Ok,
        strictly_ascending(string_views(common@)),
        forall|p: int| 0 <= p < common@.len() ==> key_seen(bm@, #[trigger] common@[p]@) && key_seen(cm@, common@[p]@),
    ensures
        res.0@.len() == common@.len(),
        forall|p: int| 0 <= p < common@.len() ==> (#[trigger] res.0@[p]).key@ == common@[p]@ && pair_locates(b, c, res.0@[p]),
        forall|r: IncompatibilityReason| #[trigger] res.1@.contains(r) <==> ((r == IncompatibilityReason::BenchmarkIdentity
            && identity_differs_before(b, c, string_views(common@), common@.len() as int)) || (r
            == IncompatibilityReason::SamplingMode && mode_differs_before(b, c, string_views(common@), common@.len() as int))),
        strictly_ascending(disagreement_keys(res.2@)),
        forall|k: Seq<char>| #[trigger] disagreement_keys(res.2@).contains(k) <==> (string_views(common@).contains(k)
            && (identity_differs(b, c, k) || mode_differs(b, c, k))),
        forall|q: int| 0 <= q < res.2@.len() ==> records_disagreement(b, c, #[trigger] res.2@[q]),
{
    let ghost keys = string_views(common@);
    let mut pairs: Vec<PlannedPair> = Vec::new();
    let mut found: Vec<IncompatibilityReason> = Vec::new();
    let mut disagreements: Vec<MeasurementDisagreement> = Vec::new();
    let ghost mut idx: Seq<int> = Seq::empty();
    let mut i: usize = 0;
    while i < common.len()
        invariant
            i <= common@.len(),
            keys == string_views(common@),
            keys.len() == common@.len(),
            bm@ == b.measurements@,
            cm@ == c.measurements@,
            measurements_check(bm@) is Ok,
            measurements_check(cm@) is Ok,
            strictly_ascending(keys),
            forall|p: int| 0 <= p < common@.len() ==> key_seen(bm@, #[trigger] common@[p]@) && key_seen(cm@, common@[p]@),
            pairs@.len() == i,
            forall|p: int| 0 <= p < i ==> (#[trigger] pairs@[p]).key@ == keys[p] && pair_locates(b, c, pairs@[p]),
            forall|r: IncompatibilityReason| found@.contains(r) <==> ((r == IncompatibilityReason::BenchmarkIdentity
                && identity_differs_before(b, c, keys, i as int)) || (r == IncompatibilityReason::SamplingMode
                && mode_differs_before(b, c, keys, i as int))),
            idx.len() == disagreements@.len(),
            forall|q: int| 0 <= q < idx.len() ==> 0 <= #[trigger] idx[q] < i,
            forall|q1: int, q2: int| 0 <= q1 < q2 < idx.len() ==> #[trigger] idx[q1] < #[trigger] idx[q2],
            forall|q: int| 0 <= q < idx.len() ==> (#[trigger] disagreements@[q]).key@ == keys[idx[q]]
                && records_disagreement(b, c, disagreements@[q])
                && (identity_differs(b, c, keys[idx[q]]) || mode_differs(b, c, keys[idx[q]])),
            forall|p: int| 0 <= p < i && (identity_differs(b, c, #[trigger] keys[p]) || mode_differs(b, c, keys[p]))
                ==> exists|q: int| 0 <= q < idx.len() && idx[q] == p,
        decreases common@.len() - i,
    {
        let ghost before_found = found@;
        let ghost before_dis = disagreements@;
        let pair = record_pair(bm, cm, &common[i], &mut found, &mut disagreements);
        proof {
            let k = keys[i as int];
            assert(k == common@[i as int]@);
            lemma_key_index(bm@, pair.baseline_index as int);
            lemma_key_index(cm@, pair.candidate_index as int);
            assert(measurement_at(b, k) == bm@[pair.baseline_index as int]);
            assert(measurement_at(c, k) == cm@[pair.candidate_index as int]);
            let id = identity_differs(b, c, k);
            let md = mode_differs(b, c, k);
            assert forall|r: IncompatibilityReason| found@.contains(r) <==> ((r == IncompatibilityReason::BenchmarkIdentity
                && identity_differs_before(b, c, keys, i + 1)) || (r == IncompatibilityReason::SamplingMode
                && mode_differs_before(b, c, keys, i + 1))) by {
                if identity_differs_before(b, c, keys, i + 1) && !identity_differs_before(b, c, keys, i as int) {
                    let p = choose|p: int| 0 <= p < i + 1 && #[trigger] identity_differs(b, c, keys[p]);
                    assert(p == i);
                }
                if identity_differs_before(b, c, keys, i as int) {
                    let p = choose|p: int| 0 <= p < i && #[trigger] identity_differs(b, c, keys[p]);
                    assert(identity_differs_before(b, c, keys, i + 1));
                }
                if id {
                    assert(identity_differs(b, c, keys[i as int]));
                    assert(identity_differs_before(b, c, keys, i + 1));
                }
                if mode_differs_before(b, c, keys, i + 1) && !mode_differs_before(b, c, keys, i as int) {
                    let p = choose|p: int| 0 <= p < i + 1 && #[trigger] mode_differs(b, c, keys[p]);
                    assert(p == i);
                }
                if mode_differs_before(b, c, keys, i as int) {
                    let p = choose|p: int| 0 <= p < i && #[trigger] mode_differs(b, c, keys[p]);
                    assert(mode_differs_before(b, c, keys, i + 1));
                }
                if md {
                    assert(mode_differs(b, c, keys[i as int]));
                    assert(mode_differs_before(b, c, keys, i + 1));
                }
                if found@.contains(r) {
                    let j = choose|j: int| 0 <= j < found@.len() && found@[j] == r;
                    if j < before_found.len() {
                        assert(before_found[j] == r);
                        assert(before_found.contains(r));
                    }
                }
                if before_found.contains(r) {
                    let j = choose|j: int| 0 <= j < before_found.len() && before_found[j] == r;
                    assert(found@[j] == r);
                }
                if r == IncompatibilityReason::BenchmarkIdentity && id {
                    assert(found@[before_found.len() as int] == r);
                }
                if r == IncompatibilityReason::SamplingMode && md {
                    if id {
                        assert(found@[before_found.len() as int + 1] == r);
                    } else {
                        assert(found@[before_found.len() as int] == r);
                    }
                }
            }
            let ghost old_idx = idx;
            if id || md {
                idx = idx.push(i as int);
                assert(disagreements@.last() == disagreements@[disagreements@.len() - 1]);
            }
            assert forall|q: int| 0 <= q < idx.len() implies (#[trigger] disagreements@[q]).key@ == keys[idx[q]]
                && records_disagreement(b, c, disagreements@[q])
                && (identity_differs(b, c, keys[idx[q]]) || mode_differs(b, c, keys[idx[q]])) by {
                if q < before_dis.len() {
                    assert(disagreements@[q] == before_dis[q]);
                }
            }
            assert forall|p: int| 0 <= p < i + 1 && (identity_differs(b, c, #[trigger] keys[p]) || mode_differs(b, c, keys[p]))
                implies exists|q: int| 0 <= q < idx.len() && idx[q] == p by {
                if p == i {
                    assert(idx[idx.len() - 1] == p);
                } else {
                    let q = choose|q: int| 0 <= q < old_idx.len() && old_idx[q] == p;
                    assert(idx[q] == old_idx[q]);
                }
            }
        }
        pairs.push(pair);
        i = i + 1;
    }
    proof {
        assert forall|q1: int, q2: int| 0 <= q1 < q2 < disagreements@.len() implies #[trigger] str_lt(
            disagreement_keys(disagreements@)[q1],
            disagreement_keys(disagreements@)[q2],
        ) by {
            assert(idx[q1] < idx[q2]);
            assert(str_lt(keys[idx[q1]], keys[idx[q2]]));
        }
        let dk = disagreement_keys(disagreements@);
        assert forall|k: Seq<char>| dk.contains(k) <==> (keys.contains(k) && (identity_differs(b, c, k) || mode_differs(
            b,
            c,
            k,
        ))) by {
            if dk.contains(k) {
                let q = choose|q: int| 0 <= q < dk.len() && dk[q] == k;
                assert(disagreements@[q].key@ == keys[idx[q]]);
                assert(keys[idx[q]] == k);
            }
            if keys.contains(k) && (identity_differs(b, c, k) || mode_differs(b, c, k)) {
                let p = choose|p: int| 0 <= p < keys.len() && keys[p] == k;
                assert(identity_differs(b, c, keys[p]) || mode_differs(b, c, keys[p]));
                let q = choose|q: int| 0 <= q < idx.len() && idx[q] == p;
                assert(dk[q] == k);
            }
        }
    }
    (pairs, found, disagreements)
}

/// A refusal naming exactly the dataset-level reasons, with both sides.
pub open spec fn dataset_refusal(b: DatasetFacts, c: DatasetFacts, res: Result<ComparisonPlan, CompareError>) -> bool {
    match res {
        Err(CompareError::Incompatible(d)) => {
            &&& canonical(d.reasons@)
            &&& forall|r: IncompatibilityReason| #[trigger] d.reasons@.contains(r)
                <==> dataset_reason_applies(projection(b), projection(c), r)
            &&& d.baseline_provenance == projection(b)
            &&& d.candidate_provenance == projection(c)
            &&& d.disagreements@.len() == 0
        },
        _ => false,
    }
}

/// A refusal naming exactly the per-benchmark reasons, with both sides and
/// every disagreeing key in ascending order.
pub open spec fn measurement_refusal(b: DatasetFacts, c: DatasetFacts, res: Result<ComparisonPlan, CompareError>) -> bool {
    match res {
        Err(CompareError::Incompatible(d)) => {
            &&& canonical(d.reasons@)
            &&& forall|r: IncompatibilityReason| #[trigger] d.reasons@.contains(r)
                <==> ((r == IncompatibilityReason::BenchmarkIdentity && identity_blocked(b, c))
                || (r == IncompatibilityReason::SamplingMode && mode_blocked(b, c)))
            &&& d.baseline_provenance == projection(b)
            &&& d.candidate_provenance == projection(c)
            &&& strictly_ascending(disagreement_keys(d.disagreements@))
            &&& forall|k: Seq<char>| #[trigger] disagreement_keys(d.disagreements@).contains(k) <==> differs_at(b, c, k)
            &&& forall|q: int| 0 <= q < d.disagreements@.len()
                ==> records_disagreement(b, c, #[trigger] d.disagreements@[q])
        },
        _ => false,
    }
}

/// A plan comparing every shared key once, ascending, pointing at each side's
/// measurement, with the one-sided keys and both compared sides.
pub open spec fn planned(b: DatasetFacts, c: DatasetFacts, res: Result<ComparisonPlan, CompareError>) -> bool {
    match res {
        Ok(plan) => {
            &&& strictly_ascending(pair_keys(plan.pairs@))
            &&& forall|k: Seq<char>| #[trigger] pair_keys(plan.pairs@).contains(k) <==> shares_key(b, c, k)
            &&& forall|p: int| 0 <= p < plan.pairs@.len() ==> pair_locates(b, c, #[trigger] plan.pairs@[p])
            &&& strictly_ascending(string_views(plan.baseline_only@))
            &&& forall|k: Seq<char>| #[trigger] string_views(plan.baseline_only@).contains(k)
                <==> (key_seen(b.measurements@, k) && !key_seen(c.measurements@, k))
            &&& strictly_ascending(string_views(plan.candidate_only@))
            &&& forall|k: Seq<char>| #[trigger] string_views(plan.candidate_only@).contains(k)
                <==> (key_seen(c.measurements@, k) && !key_seen(b.measurements@, k))
            &&& plan.baseline_provenance == projection(b)
            &&& plan.candidate_provenance == projection(c)
            &&& plan.unobservable_hardware == unobservable_hardware(projection(b), projection(c))
        },
        _ => false,
    }
}

/// Decides whether two datasets may be compared and, if so, what is compared.
/// Dataset-level compatibility is checked first, then the structure of each
/// dataset, then that some key is shared, then that every shared key names and
/// samples its benchmark alike; the first check that fails is the answer.
pub fn plan_comparison(baseline: DatasetFacts, candidate: DatasetFacts) -> (res: Result<ComparisonPlan, CompareError>)
    ensures
        dataset_blocked(baseline, candidate) ==> dataset_refusal(baseline, candidate, res),
        !dataset_blocked(baseline, candidate) ==> (dataset_check(baseline) matches Err(e) ==> res == Err::<
            ComparisonPlan,
            CompareError,
        >(CompareError::InvalidDataset(e))),
        !dataset_blocked(baseline, candidate) && dataset_check(baseline) is Ok ==> (dataset_check(
            candidate,
        ) matches Err(e) ==> res == Err::<ComparisonPlan, CompareError>(CompareError::InvalidDataset(e))),
        !dataset_blocked(baseline, candidate) && dataset_check(baseline) is Ok && dataset_check(candidate) is Ok
            && !any_shared(baseline, candidate) ==> res == Err::<ComparisonPlan, CompareError>(
            CompareError::NoCommonBenchmark,
        ),
        !dataset_blocked(baseline, candidate) && dataset_check(baseline) is Ok && dataset_check(candidate) is Ok
            && any_shared(baseline, candidate) && (identity_blocked(baseline, candidate) || mode_blocked(
            baseline,
            candidate,
        )) ==> measurement_refusal(baseline, candidate, res),
        !dataset_blocked(baseline, candidate) && dataset_check(baseline) is Ok && dataset_check(candidate) is Ok
            && any_shared(baseline, candidate) && !identity_blocked(baseline, candidate) && !mode_blocked(
            baseline,
            candidate,
        ) ==> planned(baseline, candidate, res),
{
    let ghost b = baseline;
    let ghost c = candidate;
    let baseline_check = baseline.validate();
    let candidate_check = candidate.validate();
    let baseline_keys = measurement_keys(&baseline.measurements);
    let candidate_keys = measurement_keys(&candidate.measurements);
    let DatasetFacts { format_version, format, unit, measurements: bm, provenance } = baseline;
    let pb = ComparedProvenance::of(format, format_version, unit, provenance);
    let DatasetFacts { format_version, format, unit, measurements: cm, provenance } = candidate;
    let pc = ComparedProvenance::of(format, format_version, unit, provenance);
    assert(pb == projection(b));
    assert(pc == projection(c));
    let (reasons, unobservable) = dataset_compatibility(&pb, &pc);
    if reasons.len() > 0 {
        proof {
            assert(reasons@.contains(reasons@[0]));
            assert(dataset_reason_applies(projection(b), projection(c), reasons@[0]));
        }
        return Err(CompareError::incompatible(reasons.as_slice(), pb, pc, Vec::new()));
    }
    assert(!dataset_blocked(b, c)) by {
        if dataset_blocked(b, c) {
            let r = choose|r: IncompatibilityReason| dataset_reason_applies(projection(b), projection(c), r);
            assert(reasons@.contains(r));
        }
    }
    match baseline_check {
        Err(e) => {
            return Err(CompareError::InvalidDataset(e));
        },
        Ok(()) => {},
    }
    match candidate_check {
        Err(e) => {
            return Err(CompareError::InvalidDataset(e));
        },
        Ok(()) => {},
    }
    let split = partition_keys(&baseline_keys, &candidate_keys);
    proof {
        lemma_valid_measurements(b);
        lemma_valid_measurements(c);
        assert forall|k: Seq<char>| string_views(split.common@).contains(k) <==> shares_key(b, c, k) by {}
    }
    if split.common.len() == 0 {
        proof {
            if any_shared(b, c) {
                let k = choose|k: Seq<char>| shares_key(b, c, k);
                assert(string_views(split.common@).contains(k));
            }
        }
        return Err(CompareError::NoCommonBenchmark);
    }
    proof {
        let k = string_views(split.common@)[0];
        assert(string_views(split.common@).contains(k));
        assert(shares_key(b, c, k));
        assert forall|p: int| 0 <= p < split.common@.len() implies key_seen(bm@, #[trigger] split.common@[p]@)
            && key_seen(cm@, split.common@[p]@) by {
            assert(string_views(split.common@)[p] == split.common@[p]@);
            assert(string_views(split.common@).contains(split.common@[p]@));
        }
    }
    let (pairs, found, disagreements) = check_shared(Ghost(b), Ghost(c), &bm, &cm, &split.common);
    let ghost keys = string_views(split.common@);
    proof {
        assert(identity_differs_before(b, c, keys, keys.len() as int) == identity_blocked(b, c)) by {
            if identity_differs_before(b, c, keys, keys.len() as int) {
                let p = choose|p: int| 0 <= p < keys.len() && #[trigger] identity_differs(b, c, keys[p]);
                assert(keys.contains(keys[p]));
                assert(shares_key(b, c, keys[p]));
            }
            if identity_blocked(b, c) {
                let k = choose|k: Seq<char>| shares_key(b, c, k) && #[trigger] identity_differs(b, c, k);
                assert(keys.contains(k));
                let p = choose|p: int| 0 <= p < keys.len() && keys[p] == k;
                assert(identity_differs(b, c, keys[p]));
            }
        }
        assert(mode_differs_before(b, c, keys, keys.len() as int) == mode_blocked(b, c)) by {
            if mode_differs_before(b, c, keys, keys.len() as int) {
                let p = choose|p: int| 0 <= p < keys.len() && #[trigger] mode_differs(b, c, keys[p]);
                assert(keys.contains(keys[p]));
                assert(shares_key(b, c, keys[p]));
            }
            if mode_blocked(b, c) {
                let k = choose|k: Seq<char>| shares_key(b, c, k) && #[trigger] mode_differs(b, c, k);
                assert(keys.contains(k));
                let p = choose|p: int| 0 <= p < keys.len() && keys[p] == k;
                assert(mode_differs(b, c, keys[p]));
            }
        }
    }
    if found.len() > 0 {
        proof {
            assert(found@.contains(found@[0]));
            assert forall|k: Seq<char>| #[trigger] disagreement_keys(disagreements@).contains(k) <==> differs_at(
                b,
                c,
                k,
            ) by {
                assert(disagreement_keys(disagreements@).contains(k) <==> (keys.contains(k) && (identity_differs(
                    b,
                    c,
                    k,
                ) || mode_differs(b, c, k))));
                assert(string_views(split.common@).contains(k) <==> shares_key(b, c, k));
            }
        }
        let refusal = CompareError::incompatible(found.as_slice(), pb, pc, disagreements);
        proof {
            if let CompareError::Incompatible(d) = &refusal {
                assert forall|r: IncompatibilityReason| #[trigger] d.reasons@.contains(r)
                    <==> ((r == IncompatibilityReason::BenchmarkIdentity && identity_blocked(b, c))
                    || (r == IncompatibilityReason::SamplingMode && mode_blocked(b, c))) by {
                    assert(d.reasons@.contains(r) <==> found@.contains(r));
                }
            }
        }
        return Err(refusal);
    }
    proof {
        if identity_blocked(b, c) {
            assert(found@.contains(IncompatibilityReason::BenchmarkIdentity));
        }
        if mode_blocked(b, c) {
            assert(found@.contains(IncompatibilityReason::SamplingMode));
        }
        assert(pair_keys(pairs@) =~= keys);
    }
    Ok(
        ComparisonPlan {
            pairs,
            baseline_only: split.baseline_only,
            candidate_only: split.candidate_only,
            baseline_provenance: pb,
            candidate_provenance: pc,
            unobservable_hardware: unobservable,
        },
    )
}

/// A dataset is never compared with itself: whatever it holds, planning the
/// comparison of a dataset with itself is refused, and a dataset in the
/// current format is refused for the one reason that it is the same
/// execution.
pub proof fn law_a_dataset_is_never_compared_with_itself(d: DatasetFacts)
    ensures
        dataset_blocked(d, d),
        d.format@ == BENCHMARK_DATASET_FORMAT@ && d.format_version == BENCHMARK_DATASET_FORMAT_VERSION
            ==> forall|r: IncompatibilityReason| dataset_reason_applies(projection(d), projection(d), r)
            <==> r == IncompatibilityReason::SameArtifact,
{
    assert(dataset_reason_applies(projection(d), projection(d), IncompatibilityReason::SameArtifact));
    if d.format@ == BENCHMARK_DATASET_FORMAT@ && d.format_version == BENCHMARK_DATASET_FORMAT_VERSION {
        assert forall|r: IncompatibilityReason| dataset_reason_applies(projection(d), projection(d), r)
            <==> r == IncompatibilityReason::SameArtifact by {
            law_self_comparison_is_the_same_artifact(projection(d), r);
        }
    }
}

/// Whether two datasets are refused, at the dataset level or under a shared
/// key, does not depend on which of them is the baseline.
pub proof fn law_refusal_does_not_depend_on_the_side(b: DatasetFacts, c: DatasetFacts)
    ensures
        dataset_blocked(b, c) == dataset_blocked(c, b),
        any_shared(b, c) == any_shared(c, b),
        identity_blocked(b, c) == identity_blocked(c, b),
        mode_blocked(b, c) == mode_blocked(c, b),
{
    assert forall|r: IncompatibilityReason| dataset_reason_applies(projection(b), projection(c), r)
        == dataset_reason_applies(projection(c), projection(b), r) by {
        law_compatibility_is_symmetric(projection(b), projection(c), r);
    }
    if dataset_blocked(b, c) {
        let r = choose|r: IncompatibilityReason| dataset_reason_applies(projection(b), projection(c), r);
        assert(dataset_reason_applies(projection(c), projection(b), r));
    }
    if dataset_blocked(c, b) {
        let r = choose|r: IncompatibilityReason| dataset_reason_applies(projection(c), projection(b), r);
        assert(dataset_reason_applies(projection(b), projection(c), r));
    }
    if any_shared(b, c) {
        let k = choose|k: Seq<char>| shares_key(b, c, k);
        assert(shares_key(c, b, k));
    }
    if any_shared(c, b) {
        let k = choose|k: Seq<char>| shares_key(c, b, k);
        assert(shares_key(b, c, k));
    }
    if identity_blocked(b, c) {
        let k = choose|k: Seq<char>| shares_key(b, c, k) && #[trigger] identity_differs(b, c, k);
        assert(identity_differs(c, b, k));
    }
    if identity_blocked(c, b) {
        let k = choose|k: Seq<char>| shares_key(c, b, k) && #[trigger] identity_differs(c, b, k);
        assert(identity_differs(b, c, k));
    }
    if mode_blocked(b, c) {
        let k = choose|k: Seq<char>| shares_key(b, c, k) && #[trigger] mode_differs(b, c, k);
        assert(mode_differs(c, b, k));
    }
    if mode_blocked(c, b) {
        let k = choose|k: Seq<char>| shares_key(c, b, k) && #[trigger] mode_differs(c, b, k);
        assert(mode_differs(b, c, k));
    }
}

/// Two strictly ascending lists of the same strings are the same list.
pub proof fn lemma_ascending_unique(a: Seq<Seq<char>>, b: Seq<Seq<char>>)
    requires
        strictly_ascending(a),
        strictly_ascending(b),
        forall|k: Seq<char>| a.contains(k) <==> b.contains(k),
    ensures
        a == b,
    decreases a.len(),
{
    if a.len() == 0 {
        if b.len() > 0 {
            assert(b.contains(b[0]));
        }
        assert(a =~= b);
    } else {
        assert(a.contains(a[0]));
        let j = choose|j: int| 0 <= j < b.len() && b[j] == a[0];
        assert(b.contains(b[0]));
        let i = choose|i: int| 0 <= i < a.len() && a[i] == b[0];
        if a[0] != b[0] {
            lemma_str_lt_total(a[0], b[0]);
            if str_lt(a[0], b[0]) {
                assert(j > 0);
                assert(str_lt(b[0], b[j]));
                lemma_str_lt_asymmetric(a[0], b[0]);
            } else {
                assert(i > 0);
                assert(str_lt(a[0], a[i]));
                lemma_str_lt_asymmetric(b[0], a[0]);
            }
        }
        let ta = a.drop_first();
        let tb = b.drop_first();
        assert forall|k: Seq<char>| ta.contains(k) <==> tb.contains(k) by {
            if ta.contains(k) {
                let p = choose|p: int| 0 <= p < ta.len() && ta[p] == k;
                assert(a[p + 1] == k);
                assert(str_lt(a[0], a[p + 1]));
                lemma_str_lt_irreflexive(k);
                assert(b.contains(k));
                let q = choose|q: int| 0 <= q < b.len() && b[q] == k;
                assert(q != 0);
                assert(tb[q - 1] == k);
            }
            if tb.contains(k) {
                let p = choose|p: int| 0 <= p < tb.len() && tb[p] == k;
                assert(b[p + 1] == k);
                assert(str_lt(b[0], b[p + 1]));
                lemma_str_lt_irreflexive(k);
                assert(a.contains(k));
                let q = choose|q: int| 0 <= q < a.len() && a[q] == k;
                assert(q != 0);
                assert(ta[q - 1] == k);
            }
        }
        assert forall|x: int, y: int| 0 <= x < y < ta.len() implies #[trigger] str_lt(ta[x], ta[y]) by {
            assert(str_lt(a[x + 1], a[y + 1]));
        }
        assert forall|x: int, y: int| 0 <= x < y < tb.len() implies #[trigger] str_lt(tb[x], tb[y]) by {
            assert(str_lt(b[x + 1], b[y + 1]));
        }
        lemma_ascending_unique(ta, tb);
        assert(a =~= b) by {
            assert forall|x: int| 0 <= x < a.len() implies a[x] == b[x] by {
                if x > 0 {
                    assert(a[x] == ta[x - 1]);
                    assert(b[x] == tb[x - 1]);
                }
            }
        }
    }
}

/// A strictly ascending list holds no string twice.
proof fn lemma_ascending_no_duplicates(a: Seq<Seq<char>>)
    requires
        strictly_ascending(a),
    ensures
        a.no_duplicates(),
{
    assert forall|i: int, j: int| 0 <= i < a.len() && 0 <= j < a.len() && i != j implies a[i] != a[j] by {
        if i < j {
            assert(str_lt(a[i], a[j]));
        } else {
            assert(str_lt(a[j], a[i]));
        }
        lemma_str_lt_irreflexive(a[i]);
    }
}

/// A plan is a function of the two datasets: any two plans that meet the
/// contract of `plan_comparison` compare the same keys in the same order, at
/// the same positions of each side, and list the same one-sided keys and the
/// same compared sides. The number of benchmarks compared is the number of
/// keys the two datasets share.
pub proof fn law_plan_is_determined(
    b: DatasetFacts,
    c: DatasetFacts,
    first: Result<ComparisonPlan, CompareError>,
    second: Result<ComparisonPlan, CompareError>,
)
    requires
        dataset_check(b) is Ok,
        dataset_check(c) is Ok,
        planned(b, c, first),
        planned(b, c, second),
    ensures
        ({
            let p = first->Ok_0;
            let q = second->Ok_0;
            &&& pair_keys(p.pairs@) == pair_keys(q.pairs@)
            &&& p.pairs@.len() == q.pairs@.len()
            &&& forall|i: int| 0 <= i < p.pairs@.len() ==> (#[trigger] p.pairs@[i]).baseline_index == q.pairs@[i].baseline_index
                && p.pairs@[i].candidate_index == q.pairs@[i].candidate_index
            &&& string_views(p.baseline_only@) == string_views(q.baseline_only@)
            &&& string_views(p.candidate_only@) == string_views(q.candidate_only@)
            &&& p.baseline_provenance == q.baseline_provenance
            &&& p.candidate_provenance == q.candidate_provenance
            &&& p.unobservable_hardware == q.unobservable_hardware
            &&& p.pairs@.len() == Set::new(|k: Seq<char>| shares_key(b, c, k)).len()
        }),
{
    let p = first->Ok_0;
    let q = second->Ok_0;
    lemma_ascending_unique(pair_keys(p.pairs@), pair_keys(q.pairs@));
    lemma_ascending_unique(string_views(p.baseline_only@), string_views(q.baseline_only@));
    lemma_ascending_unique(string_views(p.candidate_only@), string_views(q.candidate_only@));
    lemma_valid_measurements(b);
    lemma_valid_measurements(c);
    lemma_checked_keys_distinct(b.measurements@);
    lemma_checked_keys_distinct(c.measurements@);
    assert forall|i: int| 0 <= i < p.pairs@.len() implies (#[trigger] p.pairs@[i]).baseline_index
        == q.pairs@[i].baseline_index && p.pairs@[i].candidate_index == q.pairs@[i].candidate_index by {
        assert(pair_keys(p.pairs@)[i] == pair_keys(q.pairs@)[i]);
        assert(pair_locates(b, c, p.pairs@[i]));
        assert(pair_locates(b, c, q.pairs@[i]));
        let x = p.pairs@[i].baseline_index as int;
        let y = q.pairs@[i].baseline_index as int;
        if x < y {
            assert(measurement_key(b.measurements@[x]) != measurement_key(b.measurements@[y]));
        } else if y < x {
            assert(measurement_key(b.measurements@[y]) != measurement_key(b.measurements@[x]));
        }
        let u = p.pairs@[i].candidate_index as int;
        let v = q.pairs@[i].candidate_index as int;
        if u < v {
            assert(measurement_key(c.measurements@[u]) != measurement_key(c.measurements@[v]));
        } else if v < u {
            assert(measurement_key(c.measurements@[v]) != measurement_key(c.measurements@[u]));
        }
    }
    let keys = pair_keys(p.pairs@);
    lemma_ascending_no_duplicates(keys);
    keys.unique_seq_to_set();
    assert(keys.to_set() =~= Set::new(|k: Seq<char>| shares_key(b, c, k)));
}

/// What a report comparing two compatible, valid datasets holds, over the plan
/// it is built from and the decision rule each of its comparisons goes
/// through: one comparison per shared key and as many as there are shared
/// keys, in ascending key order; the keys only one side holds, sorted; the
/// same plan on every call; and, while the method is not qualified for a
/// direction, every verdict inconclusive with at least one reason.
pub proof fn law_comparison_report(
    b: DatasetFacts,
    c: DatasetFacts,
    first: Result<ComparisonPlan, CompareError>,
    second: Result<ComparisonPlan, CompareError>,
    verdicts: Seq<VerdictInput>,
)
    requires
        dataset_check(b) is Ok,
        dataset_check(c) is Ok,
        planned(b, c, first),
        planned(b, c, second),
        verdicts.len() == first->Ok_0.pairs@.len(),
        forall|i: int| 0 <= i < verdicts.len() ==> (#[trigger] verdicts[i]).method_qualified
            == METHOD_QUALIFIED_FOR_DIRECTION,
    ensures
        ({
            let p = first->Ok_0;
            let q = second->Ok_0;
            &&& p.pairs@.len() == Set::new(|k: Seq<char>| shares_key(b, c, k)).len()
            &&& strictly_ascending(pair_keys(p.pairs@))
            &&& forall|k: Seq<char>| #[trigger] pair_keys(p.pairs@).contains(k) <==> shares_key(b, c, k)
            &&& strictly_ascending(string_views(p.baseline_only@))
            &&& forall|k: Seq<char>| #[trigger] string_views(p.baseline_only@).contains(k)
                <==> (key_seen(b.measurements@, k) && !key_seen(c.measurements@, k))
            &&& strictly_ascending(string_views(p.candidate_only@))
            &&& forall|k: Seq<char>| #[trigger] string_views(p.candidate_only@).contains(k)
                <==> (key_seen(c.measurements@, k) && !key_seen(b.measurements@, k))
            &&& pair_keys(p.pairs@) == pair_keys(q.pairs@)
            &&& string_views(p.baseline_only@) == string_views(q.baseline_only@)
            &&& string_views(p.candidate_only@) == string_views(q.candidate_only@)
            &&& forall|i: int| 0 <= i < verdicts.len() ==> (#[trigger] decide_spec(verdicts[i])).0
                == ComparisonVerdict::Inconclusive && decide_spec(verdicts[i]).1.len() > 0
        }),
{
    law_plan_is_determined(b, c, first, second);
    assert forall|i: int| 0 <= i < verdicts.len() implies (#[trigger] decide_spec(verdicts[i])).0
        == ComparisonVerdict::Inconclusive && decide_spec(verdicts[i]).1.len() > 0 by {
        law_no_direction_while_unqualified(verdicts[i]);
        law_inconclusive_always_has_a_reason(verdicts[i]);
    }
}

} // verus!
