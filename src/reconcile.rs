use vstd::prelude::*;
use vstd::string::*;

use crate::paths::{contains_path, last_segment, path_last_segment, strs_view};
use crate::rules::{any_matches, any_rule_matches, passes_filters, Filters, Rules};
use crate::display::{bar_text, bar_text_of, percent, percent_of};
use crate::laws::lemma_usage_fractions_sound;
use crate::usage::{bar_of, compute_bar, high_usage_of, record_fraction, record_fraction_of, Bar, Fraction};

verus! {

/// One entry of the primary volume source. A name or path that could not be
/// decoded is `None`.
#[derive(Clone, Debug, PartialEq, Eq)]
pub struct VolumeInfo {
    pub name: Option<String>,
    pub mount_path: Option<String>,
    pub filesystem_type: String,
    pub total_bytes: u64,
    pub available_bytes: u64,
}

/// The raw statistics of one mounted filesystem.
#[derive(Clone, Copy, Debug, PartialEq, Eq, Structural)]
pub struct UsageStats {
    pub total_bytes: u64,
    pub available_bytes: u64,
}

/// Why the statistics of a path could not be read.
#[derive(Clone, Copy, Debug, PartialEq, Eq, Structural)]
pub enum QueryError {
    /// The platform lacks the statistics call.
    Unsupported,
    /// The path is inaccessible.
    IoError,
}

/// One path of the secondary mount source, with the outcome of its statistics query.
#[derive(Debug, PartialEq, Eq)]
pub struct MountQuery {
    pub mount_path: String,
    pub result: Result<UsageStats, QueryError>,
}

/// One reconciled storage volume.
#[derive(Clone, Debug, PartialEq, Eq)]
pub struct VolumeRecord {
    pub name: String,
    pub mount_path: String,
    pub filesystem_type: String,
    pub total_bytes: u64,
    pub available_bytes: u64,
    pub usage_fraction: Fraction,
}

/// The mathematical value of a `VolumeRecord`.
pub ghost struct RecordView {
    pub name: Seq<char>,
    pub mount_path: Seq<char>,
    pub filesystem_type: Seq<char>,
    pub total_bytes: u64,
    pub available_bytes: u64,
    pub usage_fraction: Fraction,
}

impl View for VolumeRecord {
    type V = RecordView;

    open spec fn view(&self) -> RecordView {
        RecordView {
            name: self.name@,
            mount_path: self.mount_path@,
            filesystem_type: self.filesystem_type@,
            total_bytes: self.total_bytes,
            available_bytes: self.available_bytes,
            usage_fraction: self.usage_fraction,
        }
    }
}

/// The views of a sequence of records.
pub open spec fn records_view(s: Seq<VolumeRecord>) -> Seq<RecordView> {
    s.map_values(|r: VolumeRecord| r@)
}

/// Whether a primary entry with path `p` passes the rules: it is no pseudo
/// filesystem, no structural rule excludes its path, and its path passes the
/// user's filters.
pub open spec fn primary_admits(rules: Rules, filters: Filters, v: VolumeInfo, p: Seq<char>) -> bool {
    &&& !rules.is_pseudo_fs(v.filesystem_type@)
    &&& !any_rule_matches(rules.excluded@, p)
    &&& passes_filters(filters, p)
}

/// The record that a primary entry yields, if it has a name and a path and
/// passes the rules.
pub open spec fn primary_record_of(rules: Rules, filters: Filters, v: VolumeInfo) -> Option<RecordView> {
    match (v.name, v.mount_path) {
        (Some(n), Some(p)) => if primary_admits(rules, filters, v, p@) {
            Some(
                RecordView {
                    name: n@,
                    mount_path: p@,
                    filesystem_type: v.filesystem_type@,
                    total_bytes: v.total_bytes,
                    available_bytes: v.available_bytes,
                    usage_fraction: record_fraction_of(
                        v.total_bytes,
                        v.available_bytes,
                        rules.anomaly_fraction,
                    ),
                },
            )
        } else {
            None
        },
        _ => None,
    }
}

/// The name of a secondary record: the last path segment, or the placeholder.
pub open spec fn secondary_name_of(rules: Rules, p: Seq<char>) -> Seq<char> {
    if last_segment(p).len() == 0 {
        rules.placeholder_name@
    } else {
        last_segment(p)
    }
}

/// Whether a secondary path with statistics `u` passes the rules: no
/// structural or device rule excludes it, its pair carries data, and it passes
/// the user's filters.
pub open spec fn secondary_admits(rules: Rules, filters: Filters, p: Seq<char>, u: UsageStats) -> bool {
    &&& !any_rule_matches(rules.excluded@, p)
    &&& !any_rule_matches(rules.device@, p)
    &&& !(u.total_bytes == 0 && u.available_bytes == 0)
    &&& passes_filters(filters, p)
}

/// The record that a secondary path yields, if its query succeeded and it
/// passes the rules.
pub open spec fn secondary_record_of(rules: Rules, filters: Filters, q: MountQuery) -> Option<RecordView> {
    match q.result {
        Ok(u) => if secondary_admits(rules, filters, q.mount_path@, u) {
            Some(
                RecordView {
                    name: secondary_name_of(rules, q.mount_path@),
                    mount_path: q.mount_path@,
                    filesystem_type: Seq::empty(),
                    total_bytes: u.total_bytes,
                    available_bytes: u.available_bytes,
                    usage_fraction: record_fraction_of(
                        u.total_bytes,
                        u.available_bytes,
                        rules.anomaly_fraction,
                    ),
                },
            )
        } else {
            None
        },
        Err(_) => None,
    }
}

/// Appends a record, if there is one, to a sequence.
pub open spec fn push_opt(out: Seq<RecordView>, r: Option<RecordView>) -> Seq<RecordView> {
    match r {
        Some(x) => out.push(x),
        None => out,
    }
}

/// The paths seen and the records kept after the primary entries `vols`, in
/// order. Every entry with a path marks it seen, before any rule is applied; a
/// path seen before is not considered again.
pub open spec fn primary_pass_of(rules: Rules, filters: Filters, vols: Seq<VolumeInfo>) -> (
    Seq<Seq<char>>,
    Seq<RecordView>,
)
    decreases vols.len(),
{
    if vols.len() == 0 {
        (Seq::empty(), Seq::empty())
    } else {
        let prev = primary_pass_of(rules, filters, vols.drop_last());
        let v = vols.last();
        match v.mount_path {
            Some(p) => if prev.0.contains(p@) {
                prev
            } else {
                (prev.0.push(p@), push_opt(prev.1, primary_record_of(rules, filters, v)))
            },
            None => prev,
        }
    }
}

/// The paths seen and the records kept after the secondary paths `qs`, in
/// order, starting from the paths `seen`.
pub open spec fn secondary_pass_of(
    rules: Rules,
    filters: Filters,
    seen: Seq<Seq<char>>,
    qs: Seq<MountQuery>,
) -> (Seq<Seq<char>>, Seq<RecordView>)
    decreases qs.len(),
{
    if qs.len() == 0 {
        (seen, Seq::empty())
    } else {
        let prev = secondary_pass_of(rules, filters, seen, qs.drop_last());
        let q = qs.last();
        if prev.0.contains(q.mount_path@) {
            prev
        } else {
            (prev.0.push(q.mount_path@), push_opt(prev.1, secondary_record_of(rules, filters, q)))
        }
    }
}

/// The reconciled records: the primary source's in source order, then the
/// secondary source's for the paths that the primary source did not report.
pub open spec fn reconcile_of(
    rules: Rules,
    filters: Filters,
    vols: Seq<VolumeInfo>,
    qs: Seq<MountQuery>,
) -> Seq<RecordView> {
    let p = primary_pass_of(rules, filters, vols);
    p.1 + secondary_pass_of(rules, filters, p.0, qs).1
}

/// The mount paths that the secondary source still has to query: those of
/// `paths` not in `seen`, each once, in order.
pub open spec fn unseen_paths_of(seen: Seq<Seq<char>>, paths: Seq<Seq<char>>) -> Seq<Seq<char>>
    decreases paths.len(),
{
    if paths.len() == 0 {
        Seq::empty()
    } else {
        let prev = unseen_paths_of(seen, paths.drop_last());
        let p = paths.last();
        if seen.contains(p) || prev.contains(p) {
            prev
        } else {
            prev.push(p)
        }
    }
}

/// The view of an optional record.
pub open spec fn opt_view(r: Option<VolumeRecord>) -> Option<RecordView> {
    match r {
        Some(x) => Some(x@),
        None => None,
    }
}

/// The width, in cells, of a usage bar.
pub const BAR_WIDTH: u64 = 50;

impl VolumeRecord {
    /// The usage bar of the record, `width` cells wide.
    pub fn bar(&self, width: u64) -> (r: Bar)
        requires
            self.usage_fraction.wf(),
        ensures
            r == bar_of(self.usage_fraction, width),
            r.filled + r.remaining == width,
    {
        compute_bar(self.usage_fraction, width)
    }

    /// The usage bar of the record drawn as text, `width` cells wide.
    pub fn create_plain_bar(&self, width: u64) -> (r: String)
        requires
            self.usage_fraction.wf(),
        ensures
            r@ == bar_text_of(bar_of(self.usage_fraction, width)),
    {
        bar_text(self.bar(width))
    }

    /// Whether the record's bar of `width` cells signals high usage.
    pub fn is_high_usage(&self, width: u64) -> (r: bool)
        requires
            self.usage_fraction.wf(),
        ensures
            r == high_usage_of(bar_of(self.usage_fraction, width)),
    {
        self.bar(width).is_high_usage()
    }

    /// The record's usage as a whole percentage.
    pub fn usage_percent(&self) -> (r: u64)
        requires
            self.usage_fraction.wf(),
        ensures
            r == percent_of(self.usage_fraction),
            r <= 100,
    {
        percent(self.usage_fraction)
    }

    /// Builds the record of a primary entry, or `None` where the entry lacks a
    /// name or path, is a pseudo filesystem, or fails a path rule or a filter.
    pub fn from_primary(v: &VolumeInfo, rules: &Rules, filters: &Filters) -> (r: Option<VolumeRecord>)
        requires
            rules.wf(),
        ensures
            opt_view(r) == primary_record_of(*rules, *filters, *v),
            r matches Some(x) ==> x.usage_fraction.wf(),
    {
        match (&v.name, &v.mount_path) {
            (Some(n), Some(p)) => {
                if !rules.pseudo_fs(&v.filesystem_type) && !any_matches(&rules.excluded, p)
                    && filters.passes(p) {
                    Some(
                        VolumeRecord {
                            name: n.clone(),
                            mount_path: p.clone(),
                            filesystem_type: v.filesystem_type.clone(),
                            total_bytes: v.total_bytes,
                            available_bytes: v.available_bytes,
                            usage_fraction: record_fraction(
                                v.total_bytes,
                                v.available_bytes,
                                rules.anomaly_fraction,
                            ),
                        },
                    )
                } else {
                    None
                }
            },
            _ => None,
        }
    }

    /// Builds the record of a secondary path, or `None` where its query failed,
    /// it fails a path rule or a filter, or both its total and available are zero.
    pub fn from_secondary(q: &MountQuery, rules: &Rules, filters: &Filters) -> (r: Option<VolumeRecord>)
        requires
            rules.wf(),
        ensures
            opt_view(r) == secondary_record_of(*rules, *filters, *q),
            r matches Some(x) ==> x.usage_fraction.wf(),
    {
        match &q.result {
            Ok(u) => {
                let p = &q.mount_path;
                if !any_matches(&rules.excluded, p) && !any_matches(&rules.device, p) && !(
                u.total_bytes == 0 && u.available_bytes == 0) && filters.passes(p) {
                    let seg = path_last_segment(p.as_str());
                    let name = if seg.unicode_len() == 0 {
                        rules.placeholder_name.clone()
                    } else {
                        seg
                    };
                    Some(
                        VolumeRecord {
                            name,
                            mount_path: p.clone(),
                            filesystem_type: String::new(),
                            total_bytes: u.total_bytes,
                            available_bytes: u.available_bytes,
                            usage_fraction: record_fraction(
                                u.total_bytes,
                                u.available_bytes,
                                rules.anomaly_fraction,
                            ),
                        },
                    )
                } else {
                    None
                }
            },
            Err(_) => None,
        }
    }
}

/// The outcome of the primary pass: the mount paths seen, and the records kept.
pub struct PrimaryPass {
    pub seen: Vec<String>,
    pub records: Vec<VolumeRecord>,
}

/// Runs the primary pass over the entries of the primary source.
pub fn primary_pass(volumes: &Vec<VolumeInfo>, rules: &Rules, filters: &Filters) -> (r: PrimaryPass)
    requires
        rules.wf(),
    ensures
        strs_view(r.seen@) == primary_pass_of(*rules, *filters, volumes@).0,
        records_view(r.records@) == primary_pass_of(*rules, *filters, volumes@).1,
{
    let mut seen: Vec<String> = Vec::new();
    let mut records: Vec<VolumeRecord> = Vec::new();
    let mut i: usize = 0;
    while i < volumes.len()
        invariant
            rules.wf(),
            i <= volumes.len(),
            strs_view(seen@) == primary_pass_of(*rules, *filters, volumes@.take(i as int)).0,
            records_view(records@) == primary_pass_of(*rules, *filters, volumes@.take(i as int)).1,
        decreases volumes.len() - i,
    {
        let v = &volumes[i];
        assert(volumes@.take(i + 1).drop_last() =~= volumes@.take(i as int));
        assert(volumes@.take(i + 1).last() == volumes@[i as int]);
        match &v.mount_path {
            Some(p) => {
                if !contains_path(&seen, p) {
                    let ghost seen0 = seen@;
                    let ghost records0 = records@;
                    let rec = VolumeRecord::from_primary(v, rules, filters);
                    seen.push(p.clone());
                    assert(strs_view(seen@) =~= strs_view(seen0).push(p@));
                    match rec {
                        Some(x) => {
                            records.push(x);
                            assert(records_view(records@) =~= records_view(records0).push(x@));
                        },
                        None => {},
                    }
                }
            },
            None => {},
        }
        i = i + 1;
    }
    assert(volumes@.take(volumes.len() as int) =~= volumes@);
    PrimaryPass { seen, records }
}

/// Runs the secondary pass over the queried paths, after the paths `seen`,
/// and adds the paths it considers to `seen`.
pub fn secondary_pass(
    seen: &mut Vec<String>,
    queries: &Vec<MountQuery>,
    rules: &Rules,
    filters: &Filters,
) -> (r: Vec<VolumeRecord>)
    requires
        rules.wf(),
    ensures
        strs_view(final(seen)@) == secondary_pass_of(
            *rules,
            *filters,
            strs_view(old(seen)@),
            queries@,
        ).0,
        records_view(r@) == secondary_pass_of(*rules, *filters, strs_view(old(seen)@), queries@).1,
{
    let ghost seen_start = strs_view(seen@);
    let mut records: Vec<VolumeRecord> = Vec::new();
    let mut i: usize = 0;
    while i < queries.len()
        invariant
            rules.wf(),
            i <= queries.len(),
            strs_view(seen@) == secondary_pass_of(
                *rules,
                *filters,
                seen_start,
                queries@.take(i as int),
            ).0,
            records_view(records@) == secondary_pass_of(
                *rules,
                *filters,
                seen_start,
                queries@.take(i as int),
            ).1,
        decreases queries.len() - i,
    {
        let q = &queries[i];
        assert(queries@.take(i + 1).drop_last() =~= queries@.take(i as int));
        assert(queries@.take(i + 1).last() == queries@[i as int]);
        if !contains_path(seen, &q.mount_path) {
            let ghost seen0 = seen@;
            let ghost records0 = records@;
            let rec = VolumeRecord::from_secondary(q, rules, filters);
            seen.push(q.mount_path.clone());
            assert(strs_view(seen@) =~= strs_view(seen0).push(q.mount_path@));
            match rec {
                Some(x) => {
                    records.push(x);
                    assert(records_view(records@) =~= records_view(records0).push(x@));
                },
                None => {},
            }
        }
        i = i + 1;
    }
    assert(queries@.take(queries.len() as int) =~= queries@);
    records
}

/// The paths of the secondary source's listing that still need a statistics
/// query: those not in `seen`, each once, in listing order.
pub fn paths_to_query(seen: &Vec<String>, paths: &Vec<String>) -> (r: Vec<String>)
    ensures
        strs_view(r@) == unseen_paths_of(strs_view(seen@), strs_view(paths@)),
{
    let mut out: Vec<String> = Vec::new();
    let mut i: usize = 0;
    while i < paths.len()
        invariant
            i <= paths.len(),
            strs_view(out@) == unseen_paths_of(strs_view(seen@), strs_view(paths@.take(i as int))),
        decreases paths.len() - i,
    {
        let p = &paths[i];
        assert(strs_view(paths@.take(i + 1)).drop_last() =~= strs_view(paths@.take(i as int)));
        assert(strs_view(paths@.take(i + 1)).last() == p@);
        if !contains_path(seen, p) && !contains_path(&out, p) {
            let ghost out0 = out@;
            out.push(p.clone());
            assert(strs_view(out@) =~= strs_view(out0).push(p@));
        }
        i = i + 1;
    }
    assert(paths@.take(paths.len() as int) =~= paths@);
    out
}

/// Reconciles the two sources into one list of records: the primary source's
/// entries in order, then the secondary source's paths that the primary source
/// did not report, each path at most once.
pub fn reconcile(
    volumes: &Vec<VolumeInfo>,
    queries: &Vec<MountQuery>,
    rules: &Rules,
    filters: &Filters,
) -> (r: Vec<VolumeRecord>)
    requires
        rules.wf(),
    ensures
        records_view(r@) == reconcile_of(*rules, *filters, volumes@, queries@),
        forall|i: int| 0 <= i < r@.len() ==> (#[trigger] r@[i]).usage_fraction.wf(),
{
    let pass = primary_pass(volumes, rules, filters);
    let mut seen = pass.seen;
    let mut records = pass.records;
    let mut rest = secondary_pass(&mut seen, queries, rules, filters);
    let ghost r0 = records@;
    let ghost r1 = rest@;
    records.append(&mut rest);
    assert(records_view(records@) =~= records_view(r0) + records_view(r1));
    proof {
        lemma_usage_fractions_sound(*rules, *filters, volumes@, queries@);
        assert forall|i: int| 0 <= i < records@.len() implies (#[trigger] records@[i]).usage_fraction.wf() by {
            assert(records_view(records@)[i] == records@[i]@);
            assert(reconcile_of(*rules, *filters, volumes@, queries@)[i] == records@[i]@);
        }
    }
    records
}

} // verus!
