use ndf::reconcile::{
    paths_to_query, primary_pass, reconcile, secondary_pass, MountQuery, QueryError, UsageStats,
    VolumeInfo, VolumeRecord, BAR_WIDTH,
};
use ndf::rules::{Filters, PathRule, Rules};
use ndf::usage::Fraction;

fn vol(name: &str, path: &str, fs: &str, total: u64, avail: u64) -> VolumeInfo {
    VolumeInfo {
        name: Some(name.to_string()),
        mount_path: Some(path.to_string()),
        filesystem_type: fs.to_string(),
        total_bytes: total,
        available_bytes: avail,
    }
}

fn ok(path: &str, total: u64, avail: u64) -> MountQuery {
    MountQuery {
        mount_path: path.to_string(),
        result: Ok(UsageStats { total_bytes: total, available_bytes: avail }),
    }
}

fn failed(path: &str, e: QueryError) -> MountQuery {
    MountQuery { mount_path: path.to_string(), result: Err(e) }
}

fn paths(rs: &[VolumeRecord]) -> Vec<&str> {
    rs.iter().map(|r| r.mount_path.as_str()).collect()
}

fn strings(v: &[&str]) -> Vec<String> {
    v.iter().map(|s| s.to_string()).collect()
}

#[test]
fn secondary_zero_pair_is_dropped() {
    let rules = Rules::platform_default();
    let out = reconcile(&vec![], &vec![ok("/mnt/empty", 0, 0)], &rules, &Filters::none());
    assert!(out.is_empty());
}

#[test]
fn secondary_anomalous_pair_is_kept_with_policy_fraction() {
    let rules = Rules::platform_default();
    let out = reconcile(&vec![], &vec![ok("/mnt/share", 500, 600)], &rules, &Filters::none());
    assert_eq!(out.len(), 1);
    let r = &out[0];
    assert_eq!(r.name, "share");
    assert_eq!(r.total_bytes, 500);
    assert_eq!(r.available_bytes, 600);
    assert_eq!(r.usage_fraction, Fraction { num: 1, den: 10 });
    assert_eq!(r.usage_percent(), 10);
}

#[test]
fn anomaly_fraction_is_configurable() {
    let mut rules = Rules::platform_default();
    rules.anomaly_fraction = Fraction { num: 1, den: 4 };
    let out = reconcile(
        &vec![vol("nas", "/mnt/nas", "cifs", 500, 600)],
        &vec![],
        &rules,
        &Filters::none(),
    );
    assert_eq!(out[0].usage_fraction, Fraction { num: 1, den: 4 });
}

#[test]
fn path_in_both_sources_uses_primary_data_once() {
    let rules = Rules::platform_default();
    let vols = vec![vol("sda1", "/", "ext4", 1000, 250), vol("sdb1", "/data", "xfs", 2000, 1000)];
    let qs = vec![ok("/data", 9999, 1), ok("/mnt/remote", 1000, 50)];
    let out = reconcile(&vols, &qs, &rules, &Filters::none());
    assert_eq!(paths(&out), vec!["/", "/data", "/mnt/remote"]);
    assert_eq!(out[1].name, "sdb1");
    assert_eq!(out[1].total_bytes, 2000);
    assert_eq!(out[1].usage_fraction, Fraction { num: 1000, den: 2000 });
    assert_eq!(out[2].name, "remote");
    assert_eq!(out[2].filesystem_type, "");
}

#[test]
fn excluded_primary_path_is_not_taken_from_secondary() {
    let rules = Rules::platform_default();
    let vols = vec![vol("ovl", "/merged", "overlay", 1000, 10)];
    let qs = vec![ok("/merged", 1000, 10)];
    let out = reconcile(&vols, &qs, &rules, &Filters::none());
    assert!(out.is_empty());
}

#[test]
fn duplicate_paths_appear_once() {
    let rules = Rules::platform_default();
    let vols = vec![vol("a", "/x", "ext4", 10, 5), vol("b", "/x", "ext4", 20, 5)];
    let qs = vec![ok("/y", 10, 1), ok("/y", 30, 1)];
    let out = reconcile(&vols, &qs, &rules, &Filters::none());
    assert_eq!(paths(&out), vec!["/x", "/y"]);
    assert_eq!(out[0].name, "a");
    assert_eq!(out[1].total_bytes, 10);
}

#[test]
fn structural_rules_exclude_from_both_sources() {
    let rules = Rules::platform_default();
    let vols = vec![
        vol("root", "/", "ext4", 100, 10),
        vol("snap", "/snap/core/1", "squashfs", 100, 0),
        vol("varsnap", "/var/snap/x", "ext4", 100, 0),
        vol("boot", "/boot", "vfat", 100, 50),
        vol("efi", "/boot/efi", "vfat", 100, 50),
        vol("var", "/var", "ext4", 100, 50),
        vol("dev", "/dev", "devtmpfs", 100, 50),
        vol("sysv", "/System/Volumes/VM", "apfs", 100, 50),
    ];
    let qs = vec![
        ok("/proc", 100, 1),
        ok("/sys/fs/cgroup", 100, 1),
        ok("/var/lib/docker", 100, 1),
        ok("/dev/shm", 100, 1),
        ok("/mnt/nfs", 100, 1),
    ];
    let out = reconcile(&vols, &qs, &rules, &Filters::none());
    assert_eq!(paths(&out), vec!["/", "/var", "/mnt/nfs"]);
}

#[test]
fn exclude_list_applies_to_both_sources() {
    let rules = Rules::platform_default();
    let vols = vec![vol("root", "/", "ext4", 100, 10), vol("home", "/home", "ext4", 100, 10)];
    let qs = vec![ok("/mnt/a", 100, 1), ok("/mnt/b", 100, 1)];
    let filters = Filters { only: None, exclude: Some(strings(&["/home", "/mnt/a"])) };
    let out = reconcile(&vols, &qs, &rules, &filters);
    assert_eq!(paths(&out), vec!["/", "/mnt/b"]);
}

#[test]
fn only_list_takes_precedence() {
    let rules = Rules::platform_default();
    let vols = vec![vol("root", "/", "ext4", 100, 10), vol("home", "/home", "ext4", 100, 10)];
    let qs = vec![ok("/mnt/a", 100, 1), ok("/mnt/b", 100, 1)];
    let filters = Filters { only: Some(strings(&["/home", "/mnt/b", "/mnt/c"])), exclude: None };
    let out = reconcile(&vols, &qs, &rules, &filters);
    assert_eq!(paths(&out), vec!["/home", "/mnt/b"]);
    let both = Filters {
        only: Some(strings(&["/home", "/mnt/b"])),
        exclude: Some(strings(&["/mnt/b"])),
    };
    let out = reconcile(&vols, &qs, &rules, &both);
    assert_eq!(paths(&out), vec!["/home"]);
}

#[test]
fn only_list_does_not_override_structural_rules() {
    let rules = Rules::platform_default();
    let vols = vec![vol("boot", "/boot", "vfat", 100, 10)];
    let filters = Filters { only: Some(strings(&["/boot"])), exclude: None };
    assert!(reconcile(&vols, &vec![], &rules, &filters).is_empty());
}

#[test]
fn failed_queries_are_skipped() {
    let rules = Rules::platform_default();
    let qs = vec![
        failed("/mnt/a", QueryError::Unsupported),
        failed("/mnt/b", QueryError::IoError),
        ok("/mnt/c", 100, 40),
    ];
    let out = reconcile(&vec![], &qs, &rules, &Filters::none());
    assert_eq!(paths(&out), vec!["/mnt/c"]);
    assert_eq!(out[0].usage_percent(), 60);
}

#[test]
fn malformed_primary_entry_is_dropped() {
    let rules = Rules::platform_default();
    let mut nameless = vol("x", "/data", "ext4", 100, 10);
    nameless.name = None;
    let mut pathless = vol("y", "/other", "ext4", 100, 10);
    pathless.mount_path = None;
    let qs = vec![ok("/data", 100, 10), ok("/other", 100, 90)];
    let out = reconcile(&vec![nameless, pathless], &qs, &rules, &Filters::none());
    assert_eq!(paths(&out), vec!["/other"]);
    assert_eq!(out[0].name, "other");
}

#[test]
fn secondary_name_falls_back_to_placeholder() {
    let rules = Rules::platform_default();
    let out = reconcile(&vec![], &vec![ok("/mnt/share/", 100, 10)], &rules, &Filters::none());
    assert_eq!(out[0].name, "unnamed");
}

#[test]
fn zero_total_record_has_zero_usage() {
    let rules = Rules::platform_default();
    let vols = vec![vol("tiny", "/tiny", "ext4", 0, 0)];
    let qs = vec![ok("/mnt/odd", 0, 7)];
    let out = reconcile(&vols, &qs, &rules, &Filters::none());
    assert_eq!(paths(&out), vec!["/tiny", "/mnt/odd"]);
    assert_eq!(out[0].usage_fraction.num, 0);
    assert_eq!(out[1].usage_fraction.num, 0);
    assert!(!out[0].is_high_usage(BAR_WIDTH));
}

#[test]
fn record_bar_and_flag() {
    let rules = Rules::platform_default();
    let vols = vec![vol("a", "/a", "ext4", 1000, 250), vol("b", "/b", "ext4", 1000, 50)];
    let out = reconcile(&vols, &vec![], &rules, &Filters::none());
    let bar = out[0].create_plain_bar(BAR_WIDTH);
    assert_eq!(bar.chars().filter(|c| *c == '\u{2593}').count(), 38);
    assert_eq!(bar.chars().filter(|c| *c == '\u{2591}').count(), 12);
    assert!(!out[0].is_high_usage(BAR_WIDTH));
    assert!(out[1].is_high_usage(BAR_WIDTH));
    assert_eq!(out[1].bar(BAR_WIDTH).remaining, 2);
    assert_eq!(out[1].usage_percent(), 95);
}

#[test]
fn split_passes_agree_with_reconcile() {
    let rules = Rules::platform_default();
    let filters = Filters::none();
    let vols = vec![vol("root", "/", "ext4", 100, 10), vol("data", "/data", "xfs", 100, 20)];
    let listing = strings(&["/", "/mnt/nfs", "/data", "/mnt/nfs", "/mnt/smb"]);
    let mut pass = primary_pass(&vols, &rules, &filters);
    assert_eq!(pass.seen, strings(&["/", "/data"]));
    let todo = paths_to_query(&pass.seen, &listing);
    assert_eq!(todo, strings(&["/mnt/nfs", "/mnt/smb"]));
    let qs = vec![ok("/mnt/nfs", 100, 30), ok("/mnt/smb", 100, 40)];
    let mut records = pass.records;
    records.extend(secondary_pass(&mut pass.seen, &qs, &rules, &filters));
    assert_eq!(pass.seen.len(), 4);
    assert_eq!(records, reconcile(&vols, &qs, &rules, &filters));
    assert_eq!(paths(&records), vec!["/", "/data", "/mnt/nfs", "/mnt/smb"]);
}

#[test]
fn path_rules_match_exactly_or_by_prefix() {
    let exact = PathRule::Exact("/boot".to_string());
    let prefix = PathRule::Prefix("/var/".to_string());
    assert!(exact.matches(&"/boot".to_string()));
    assert!(!exact.matches(&"/boot/efi".to_string()));
    assert!(prefix.matches(&"/var/lib".to_string()));
    assert!(!prefix.matches(&"/var".to_string()));
    assert!(!prefix.matches(&"/variable".to_string()));
}
