use vstd::prelude::*;

use crate::reconcile::{
    primary_pass_of, primary_record_of, reconcile_of, secondary_pass_of, secondary_record_of,
    MountQuery, RecordView, VolumeInfo,
};
use crate::rules::{any_rule_matches, passes_filters, Filters, Rules};
use crate::paths::strs_view;
use crate::usage::{fraction_of, record_fraction_of};

verus! {

/// The path of the `k`-th primary entry, if it has one.
pub open spec fn path_at(vols: Seq<VolumeInfo>, k: int) -> Option<Seq<char>> {
    match vols[k].mount_path {
        Some(p) => Some(p@),
        None => None,
    }
}

/// Whether `r` is the record of some primary entry.
pub open spec fn from_primary_entry(rules: Rules, filters: Filters, vols: Seq<VolumeInfo>, r: RecordView) -> bool {
    exists|k: int| 0 <= k < vols.len() && primary_record_of(rules, filters, #[trigger] vols[k]) == Some(r)
}

/// Whether `r` is the record of some secondary path.
pub open spec fn from_secondary_entry(rules: Rules, filters: Filters, qs: Seq<MountQuery>, r: RecordView) -> bool {
    exists|k: int| 0 <= k < qs.len() && secondary_record_of(rules, filters, #[trigger] qs[k]) == Some(r)
}

/// Whether the paths of a sequence of records are pairwise distinct.
pub open spec fn distinct_paths(out: Seq<RecordView>) -> bool {
    forall|i: int, j: int|
        0 <= i < j < out.len() ==> (#[trigger] out[i]).mount_path != (#[trigger] out[j]).mount_path
}

proof fn lemma_primary_pass(rules: Rules, filters: Filters, vols: Seq<VolumeInfo>)
    ensures
        ({
            let (seen, out) = primary_pass_of(rules, filters, vols);
            &&& forall|x: Seq<char>|
                #![trigger seen.contains(x)]
                seen.contains(x) <==> exists|k: int|
                    0 <= k < vols.len() && #[trigger] path_at(vols, k) == Some(x)
            &&& forall|i: int| 0 <= i < out.len() ==> seen.contains(#[trigger] out[i].mount_path)
            &&& distinct_paths(out)
            &&& forall|i: int|
                0 <= i < out.len() ==> from_primary_entry(rules, filters, vols, #[trigger] out[i])
            &&& forall|k: int|
                #![trigger primary_record_of(rules, filters, vols[k])]
                0 <= k < vols.len() && primary_record_of(rules, filters, vols[k]) is Some && (forall|
                    j: int,
                | 0 <= j < k ==> #[trigger] path_at(vols, j) != path_at(vols, k)) ==> out.contains(
                    primary_record_of(rules, filters, vols[k])->0,
                )
        }),
    decreases vols.len(),
{
    if vols.len() > 0 {
        let pre = vols.drop_last();
        lemma_primary_pass(rules, filters, pre);
        let prev = primary_pass_of(rules, filters, pre);
        let (seen, out) = primary_pass_of(rules, filters, vols);
        let n = vols.len() - 1;
        let v = vols.last();
        assert forall|k: int| 0 <= k < n implies path_at(vols, k) == path_at(pre, k) && vols[k]
            == pre[k] by {}
        assert forall|x: Seq<char>| seen.contains(x) <==> exists|k: int|
            0 <= k < vols.len() && #[trigger] path_at(vols, k) == Some(x) by {
            if seen.contains(x) {
                if prev.0.contains(x) {
                    let k = choose|k: int| 0 <= k < pre.len() && #[trigger] path_at(pre, k) == Some(x);
                    assert(path_at(vols, k) == Some(x));
                } else {
                    assert(seen != prev.0);
                    let j = choose|j: int| 0 <= j < seen.len() && seen[j] == x;
                    assert(j == seen.len() - 1);
                    assert(path_at(vols, n) == Some(x));
                }
            }
            if exists|k: int| 0 <= k < vols.len() && #[trigger] path_at(vols, k) == Some(x) {
                let k = choose|k: int| 0 <= k < vols.len() && #[trigger] path_at(vols, k) == Some(x);
                if k < n {
                    assert(path_at(pre, k) == Some(x));
                    assert(prev.0.contains(x));
                    let j = choose|j: int| 0 <= j < prev.0.len() && prev.0[j] == x;
                    assert(seen[j] == x);
                } else if !prev.0.contains(x) {
                    assert(seen[seen.len() - 1] == x);
                }
            }
        }
        assert forall|i: int| 0 <= i < out.len() implies from_primary_entry(
            rules,
            filters,
            vols,
            #[trigger] out[i],
        ) by {
            if i < prev.1.len() {
                assert(out[i] == prev.1[i]);
                assert(from_primary_entry(rules, filters, pre, prev.1[i]));
                let k = choose|k: int|
                    0 <= k < pre.len() && primary_record_of(rules, filters, #[trigger] pre[k]) == Some(
                        prev.1[i],
                    );
                assert(vols[k] == pre[k]);
            } else {
                assert(primary_record_of(rules, filters, vols[n]) == Some(out[i]));
            }
        }
        assert forall|k: int|
            #![trigger primary_record_of(rules, filters, vols[k])]
            0 <= k < vols.len() && primary_record_of(rules, filters, vols[k]) is Some && (forall|
                j: int,
            | 0 <= j < k ==> #[trigger] path_at(vols, j) != path_at(vols, k)) implies out.contains(
            primary_record_of(rules, filters, vols[k])->0,
        ) by {
            let r = primary_record_of(rules, filters, vols[k])->0;
            if k < n {
                assert(forall|j: int| 0 <= j < k ==> path_at(pre, j) == path_at(vols, j));
                assert(primary_record_of(rules, filters, pre[k]) is Some);
                assert(prev.1.contains(r));
                let i = choose|i: int| 0 <= i < prev.1.len() && prev.1[i] == r;
                assert(out[i] == r);
            } else {
                let p = v.mount_path->0;
                if prev.0.contains(p@) {
                    let j = choose|j: int| 0 <= j < pre.len() && #[trigger] path_at(pre, j) == Some(p@);
                    assert(path_at(vols, j) == path_at(vols, k));
                }
                assert(out[out.len() - 1] == r);
            }
        }
    }
}

proof fn lemma_secondary_pass(rules: Rules, filters: Filters, seen0: Seq<Seq<char>>, qs: Seq<MountQuery>)
    ensures
        ({
            let (seen, out) = secondary_pass_of(rules, filters, seen0, qs);
            &&& forall|x: Seq<char>| seen0.contains(x) ==> #[trigger] seen.contains(x)
            &&& forall|i: int| 0 <= i < out.len() ==> seen.contains(#[trigger] out[i].mount_path)
            &&& forall|i: int| 0 <= i < out.len() ==> !seen0.contains(#[trigger] out[i].mount_path)
            &&& distinct_paths(out)
            &&& forall|i: int|
                0 <= i < out.len() ==> from_secondary_entry(rules, filters, qs, #[trigger] out[i])
        }),
    decreases qs.len(),
{
    if qs.len() > 0 {
        let pre = qs.drop_last();
        lemma_secondary_pass(rules, filters, seen0, pre);
        let prev = secondary_pass_of(rules, filters, seen0, pre);
        let (seen, out) = secondary_pass_of(rules, filters, seen0, qs);
        let n = qs.len() - 1;
        assert forall|i: int| 0 <= i < out.len() implies from_secondary_entry(
            rules,
            filters,
            qs,
            #[trigger] out[i],
        ) by {
            if i < prev.1.len() {
                assert(out[i] == prev.1[i]);
                assert(from_secondary_entry(rules, filters, pre, prev.1[i]));
                let k = choose|k: int|
                    0 <= k < pre.len() && secondary_record_of(rules, filters, #[trigger] pre[k])
                        == Some(prev.1[i]);
                assert(qs[k] == pre[k]);
            } else {
                assert(secondary_record_of(rules, filters, qs[n]) == Some(out[i]));
            }
        }
        assert forall|x: Seq<char>| seen0.contains(x) implies #[trigger] seen.contains(x) by {
            assert(prev.0.contains(x));
            if seen != prev.0 {
                let j = choose|j: int| 0 <= j < prev.0.len() && prev.0[j] == x;
                assert(seen[j] == x);
            }
        }
        assert forall|i: int| 0 <= i < out.len() implies seen.contains(
            #[trigger] out[i].mount_path,
        ) by {
            if i < prev.1.len() {
                assert(out[i] == prev.1[i]);
                assert(prev.0.contains(out[i].mount_path));
                if seen != prev.0 {
                    let j = choose|j: int| 0 <= j < prev.0.len() && prev.0[j] == out[i].mount_path;
                    assert(seen[j] == out[i].mount_path);
                }
            } else {
                assert(seen[seen.len() - 1] == out[i].mount_path);
            }
        }
        assert forall|i: int| 0 <= i < out.len() implies !seen0.contains(
            #[trigger] out[i].mount_path,
        ) by {
            if i < prev.1.len() {
                assert(out[i] == prev.1[i]);
            } else {
                if seen0.contains(out[i].mount_path) {
                    assert(prev.0.contains(out[i].mount_path));
                }
            }
        }
        assert forall|i: int, j: int| 0 <= i < j < out.len() implies (#[trigger] out[i]).mount_path
            != (#[trigger] out[j]).mount_path by {
            if j < prev.1.len() {
                assert(out[i] == prev.1[i] && out[j] == prev.1[j]);
            } else if j == prev.1.len() {
                assert(out[i] == prev.1[i]);
                assert(prev.0.contains(prev.1[i].mount_path));
            }
        }
    }
}

/// What every reconciled record satisfies: its path passes the rules and the
/// filters, and its usage fraction is the resolved fraction of its pair.
pub open spec fn record_sound(rules: Rules, filters: Filters, r: RecordView) -> bool {
    &&& !any_rule_matches(rules.excluded@, r.mount_path)
    &&& passes_filters(filters, r.mount_path)
    &&& r.usage_fraction == record_fraction_of(
        r.total_bytes,
        r.available_bytes,
        rules.anomaly_fraction,
    )
}

proof fn lemma_reconcile_parts(rules: Rules, filters: Filters, vols: Seq<VolumeInfo>, qs: Seq<MountQuery>)
    ensures
        ({
            let (seen, prim) = primary_pass_of(rules, filters, vols);
            let out = reconcile_of(rules, filters, vols, qs);
            &&& out.len() >= prim.len()
            &&& distinct_paths(out)
            &&& forall|i: int| 0 <= i < out.len() ==> record_sound(rules, filters, #[trigger] out[i])
            &&& forall|i: int|
                0 <= i < prim.len() ==> out[i] == prim[i] && from_primary_entry(
                    rules,
                    filters,
                    vols,
                    #[trigger] out[i],
                )
            &&& forall|i: int|
                prim.len() <= i < out.len() ==> !seen.contains(#[trigger] out[i].mount_path)
        }),
{
    lemma_primary_pass(rules, filters, vols);
    let (seen, prim) = primary_pass_of(rules, filters, vols);
    lemma_secondary_pass(rules, filters, seen, qs);
    let sec = secondary_pass_of(rules, filters, seen, qs).1;
    let out = reconcile_of(rules, filters, vols, qs);
    assert forall|i: int| 0 <= i < out.len() implies record_sound(rules, filters, #[trigger] out[i]) by {
        if i < prim.len() {
            assert(out[i] == prim[i]);
            assert(from_primary_entry(rules, filters, vols, prim[i]));
        } else {
            assert(out[i] == sec[i - prim.len()]);
            assert(from_secondary_entry(rules, filters, qs, sec[i - prim.len()]));
        }
    }
    assert forall|i: int| prim.len() <= i < out.len() implies !seen.contains(
        #[trigger] out[i].mount_path,
    ) by {
        assert(out[i] == sec[i - prim.len()]);
    }
    assert forall|i: int, j: int| 0 <= i < j < out.len() implies (#[trigger] out[i]).mount_path
        != (#[trigger] out[j]).mount_path by {
        if j < prim.len() {
            assert(out[i] == prim[i] && out[j] == prim[j]);
        } else if i < prim.len() {
            assert(out[i] == prim[i]);
            assert(seen.contains(prim[i].mount_path));
            assert(out[j] == sec[j - prim.len()]);
        } else {
            assert(out[i] == sec[i - prim.len()] && out[j] == sec[j - prim.len()]);
        }
    }
}

/// No two reconciled records share a mount path.
pub proof fn lemma_paths_unique(rules: Rules, filters: Filters, vols: Seq<VolumeInfo>, qs: Seq<MountQuery>)
    ensures
        distinct_paths(reconcile_of(rules, filters, vols, qs)),
{
    lemma_reconcile_parts(rules, filters, vols, qs);
}

/// A mount path that the primary source reports is never taken from the
/// secondary source: every record with that path is the record of a primary
/// entry and stands among the primary records. When the first primary entry
/// with the path yields a record, that record appears, exactly once.
pub proof fn lemma_primary_source_wins(
    rules: Rules,
    filters: Filters,
    vols: Seq<VolumeInfo>,
    qs: Seq<MountQuery>,
    k: int,
)
    requires
        0 <= k < vols.len(),
        vols[k].mount_path is Some,
    ensures
        ({
            let p = vols[k].mount_path->0@;
            let out = reconcile_of(rules, filters, vols, qs);
            let prim = primary_pass_of(rules, filters, vols).1;
            &&& forall|i: int|
                0 <= i < out.len() && (#[trigger] out[i]).mount_path == p ==> i < prim.len()
                    && from_primary_entry(rules, filters, vols, out[i])
            &&& (primary_record_of(rules, filters, vols[k]) is Some && forall|j: int|
                0 <= j < k ==> #[trigger] path_at(vols, j) != path_at(vols, k)) ==> exists|i: int|
                0 <= i < out.len() && out[i] == primary_record_of(rules, filters, vols[k])->0 && forall|
                    j: int,
                | 0 <= j < out.len() && (#[trigger] out[j]).mount_path == p ==> j == i
        }),
{
    lemma_primary_pass(rules, filters, vols);
    lemma_reconcile_parts(rules, filters, vols, qs);
    let p = vols[k].mount_path->0@;
    let out = reconcile_of(rules, filters, vols, qs);
    let (seen, prim) = primary_pass_of(rules, filters, vols);
    assert(path_at(vols, k) == Some(p));
    assert(seen.contains(p));
    assert forall|i: int| 0 <= i < out.len() && (#[trigger] out[i]).mount_path == p implies i
        < prim.len() && from_primary_entry(rules, filters, vols, out[i]) by {}
    if primary_record_of(rules, filters, vols[k]) is Some && forall|j: int|
        0 <= j < k ==> #[trigger] path_at(vols, j) != path_at(vols, k) {
        let r = primary_record_of(rules, filters, vols[k])->0;
        assert(prim.contains(r));
        let i = choose|i: int| 0 <= i < prim.len() && prim[i] == r;
        assert(out[i] == r);
        assert(r.mount_path == p);
        assert forall|j: int| 0 <= j < out.len() && (#[trigger] out[j]).mount_path == p implies j
            == i by {
            if j != i {
                if j < i {
                    assert(out[j].mount_path != out[i].mount_path);
                } else {
                    assert(out[i].mount_path != out[j].mount_path);
                }
            }
        }
    }
}

/// No reconciled record has a path that a structural rule excludes or that
/// the user's exclude list names, whichever source it came from.
pub proof fn lemma_exclusions_respected(
    rules: Rules,
    filters: Filters,
    vols: Seq<VolumeInfo>,
    qs: Seq<MountQuery>,
)
    ensures
        forall|i: int|
            0 <= i < reconcile_of(rules, filters, vols, qs).len() ==> {
                let p = (#[trigger] reconcile_of(rules, filters, vols, qs)[i]).mount_path;
                &&& !any_rule_matches(rules.excluded@, p)
                &&& filters.exclude matches Some(l) ==> !strs_view(l@).contains(p)
            },
{
    lemma_reconcile_parts(rules, filters, vols, qs);
}

/// When a list of paths to show is given, every reconciled record's path is on it.
pub proof fn lemma_only_list_respected(
    rules: Rules,
    filters: Filters,
    vols: Seq<VolumeInfo>,
    qs: Seq<MountQuery>,
)
    requires
        filters.only is Some,
    ensures
        forall|i: int|
            0 <= i < reconcile_of(rules, filters, vols, qs).len() ==> strs_view(
                filters.only->0@,
            ).contains((#[trigger] reconcile_of(rules, filters, vols, qs)[i]).mount_path),
{
    lemma_reconcile_parts(rules, filters, vols, qs);
}

/// Every reconciled record's usage fraction lies in `[0, 1]`; it is zero when
/// the total is zero, `1 - available / total` for a sound pair, and the policy's
/// substitute for an impossible pair (`available > total > 0`).
pub proof fn lemma_usage_fractions_sound(
    rules: Rules,
    filters: Filters,
    vols: Seq<VolumeInfo>,
    qs: Seq<MountQuery>,
)
    requires
        rules.wf(),
    ensures
        forall|i: int|
            0 <= i < reconcile_of(rules, filters, vols, qs).len() ==> {
                let r = #[trigger] reconcile_of(rules, filters, vols, qs)[i];
                &&& r.usage_fraction.wf()
                &&& r.total_bytes == 0 ==> r.usage_fraction.num == 0
                &&& 0 < r.total_bytes && r.available_bytes <= r.total_bytes ==> r.usage_fraction
                    == fraction_of(r.total_bytes, r.available_bytes) && r.usage_fraction.num
                    == r.total_bytes - r.available_bytes && r.usage_fraction.den == r.total_bytes
                &&& 0 < r.total_bytes && r.available_bytes > r.total_bytes ==> r.usage_fraction
                    == rules.anomaly_fraction
            },
{
    lemma_reconcile_parts(rules, filters, vols, qs);
}

} // verus!
