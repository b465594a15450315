use vstd::prelude::*;
use vstd::string::*;

use crate::paths::{contains_path, has_prefix, starts_with, strs_view};
use crate::usage::Fraction;

verus! {

/// A structural exclusion rule on mount paths.
#[derive(Clone, Debug, PartialEq, Eq)]
pub enum PathRule {
    /// Matches this path exactly.
    Exact(String),
    /// Matches every path that starts with this text.
    Prefix(String),
}

/// The mathematical value of a `PathRule`.
pub ghost enum PathRuleView {
    Exact(Seq<char>),
    Prefix(Seq<char>),
}

impl View for PathRule {
    type V = PathRuleView;

    open spec fn view(&self) -> PathRuleView {
        match self {
            PathRule::Exact(s) => PathRuleView::Exact(s@),
            PathRule::Prefix(s) => PathRuleView::Prefix(s@),
        }
    }
}

/// The views of a sequence of rules.
pub open spec fn rules_view(s: Seq<PathRule>) -> Seq<PathRuleView> {
    s.map_values(|r: PathRule| r@)
}

/// Whether a rule matches a path.
pub open spec fn rule_matches(rule: PathRule, p: Seq<char>) -> bool {
    match rule {
        PathRule::Exact(s) => p == s@,
        PathRule::Prefix(s) => has_prefix(p, s@),
    }
}

/// Whether some rule of the list matches a path.
pub open spec fn any_rule_matches(rules: Seq<PathRule>, p: Seq<char>) -> bool {
    exists|i: int| 0 <= i < rules.len() && rule_matches(#[trigger] rules[i], p)
}

impl PathRule {
    /// Tests the rule against a path.
    pub fn matches(&self, p: &String) -> (r: bool)
        ensures
            r == rule_matches(*self, p@),
    {
        match self {
            PathRule::Exact(s) => *p == *s,
            PathRule::Prefix(s) => starts_with(p.as_str(), s.as_str()),
        }
    }
}

/// Tests a path against every rule of a list.
pub fn any_matches(rules: &Vec<PathRule>, p: &String) -> (r: bool)
    ensures
        r == any_rule_matches(rules@, p@),
{
    let mut i: usize = 0;
    while i < rules.len()
        invariant
            i <= rules.len(),
            forall|j: int| 0 <= j < i ==> !rule_matches(#[trigger] rules@[j], p@),
        decreases rules.len() - i,
    {
        if rules[i].matches(p) {
            return true;
        }
        i = i + 1;
    }
    false
}

/// The platform rule set of the reconciliation engine.
pub struct Rules {
    /// Filesystem types that are never user storage (overlays, unions, device trees).
    pub pseudo_fs_types: Vec<String>,
    /// Path rules applied to the records of both sources.
    pub excluded: Vec<PathRule>,
    /// Path rules for device nodes, applied to the secondary source's paths.
    pub device: Vec<PathRule>,
    /// The usage fraction that stands in for an impossible pair (`available > total > 0`).
    pub anomaly_fraction: Fraction,
    /// The name given to a secondary record whose path has an empty last segment.
    pub placeholder_name: String,
}

impl Rules {
    pub open spec fn wf(&self) -> bool {
        self.anomaly_fraction.wf()
    }

    /// Whether a filesystem type is a pseudo filesystem.
    pub open spec fn is_pseudo_fs(&self, fs: Seq<char>) -> bool {
        strs_view(self.pseudo_fs_types@).contains(fs)
    }

    /// The rule set for the usual Unix layouts, with a usage of one tenth for an
    /// impossible pair.
    pub fn platform_default() -> (r: Rules)
        ensures
            r.wf(),
            r.anomaly_fraction == (Fraction { num: 1, den: 10 }),
            strs_view(r.pseudo_fs_types@) == seq![
                "overlay"@,
                "aufs"@,
                "unionfs"@,
                "devfs"@,
                "devtmpfs"@,
            ],
            rules_view(r.excluded@) == seq![
                PathRuleView::Exact("/snap"@),
                PathRuleView::Prefix("/snap/"@),
                PathRuleView::Exact("/proc"@),
                PathRuleView::Prefix("/proc/"@),
                PathRuleView::Exact("/sys"@),
                PathRuleView::Prefix("/sys/"@),
                PathRuleView::Exact("/boot"@),
                PathRuleView::Prefix("/boot/"@),
                PathRuleView::Prefix("/var/"@),
                PathRuleView::Prefix("/System/Volumes/"@),
            ],
            rules_view(r.device@) == seq![PathRuleView::Exact("/dev"@), PathRuleView::Prefix("/dev/"@)],
            r.placeholder_name@ == "unnamed"@,
    {
        let pseudo_fs_types = vec![
            String::from_str("overlay"),
            String::from_str("aufs"),
            String::from_str("unionfs"),
            String::from_str("devfs"),
            String::from_str("devtmpfs"),
        ];
        assert(strs_view(pseudo_fs_types@) =~= seq![
            "overlay"@,
            "aufs"@,
            "unionfs"@,
            "devfs"@,
            "devtmpfs"@,
        ]);
        let excluded = vec![
            PathRule::Exact(String::from_str("/snap")),
            PathRule::Prefix(String::from_str("/snap/")),
            PathRule::Exact(String::from_str("/proc")),
            PathRule::Prefix(String::from_str("/proc/")),
            PathRule::Exact(String::from_str("/sys")),
            PathRule::Prefix(String::from_str("/sys/")),
            PathRule::Exact(String::from_str("/boot")),
            PathRule::Prefix(String::from_str("/boot/")),
            PathRule::Prefix(String::from_str("/var/")),
            PathRule::Prefix(String::from_str("/System/Volumes/")),
        ];
        assert(rules_view(excluded@) =~= seq![
            PathRuleView::Exact("/snap"@),
            PathRuleView::Prefix("/snap/"@),
            PathRuleView::Exact("/proc"@),
            PathRuleView::Prefix("/proc/"@),
            PathRuleView::Exact("/sys"@),
            PathRuleView::Prefix("/sys/"@),
            PathRuleView::Exact("/boot"@),
            PathRuleView::Prefix("/boot/"@),
            PathRuleView::Prefix("/var/"@),
            PathRuleView::Prefix("/System/Volumes/"@),
        ]);
        let device = vec![
            PathRule::Exact(String::from_str("/dev")),
            PathRule::Prefix(String::from_str("/dev/")),
        ];
        assert(rules_view(device@) =~= seq![
            PathRuleView::Exact("/dev"@),
            PathRuleView::Prefix("/dev/"@),
        ]);
        Rules {
            pseudo_fs_types,
            excluded,
            device,
            anomaly_fraction: Fraction { num: 1, den: 10 },
            placeholder_name: String::from_str("unnamed"),
        }
    }

    /// Tests whether a filesystem type is a pseudo filesystem.
    pub fn pseudo_fs(&self, fs: &String) -> (r: bool)
        ensures
            r == self.is_pseudo_fs(fs@),
    {
        contains_path(&self.pseudo_fs_types, fs)
    }
}

/// The user's filters on mount paths.
pub struct Filters {
    /// When present, only these paths are shown.
    pub only: Option<Vec<String>>,
    /// When present, these paths are never shown.
    pub exclude: Option<Vec<String>>,
}

/// Whether a path passes the user's lists of paths to show and to hide.
pub open spec fn passes_filters(f: Filters, p: Seq<char>) -> bool {
    &&& match f.only {
        Some(l) => strs_view(l@).contains(p),
        None => true,
    }
    &&& match f.exclude {
        Some(l) => !strs_view(l@).contains(p),
        None => true,
    }
}

impl Filters {
    /// No filter at all.
    pub fn none() -> (r: Filters)
        ensures
            r.only is None,
            r.exclude is None,
    {
        Filters { only: None, exclude: None }
    }

    /// Tests a path against the list of paths to show, then the exclude list.
    pub fn passes(&self, p: &String) -> (r: bool)
        ensures
            r == passes_filters(*self, p@),
    {
        match &self.only {
            Some(l) => {
                if !contains_path(l, p) {
                    return false;
                }
            },
            None => {},
        }
        match &self.exclude {
            Some(l) => !contains_path(l, p),
            None => true,
        }
    }
}

} // verus!
