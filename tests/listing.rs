use kodegen_tools_process::listing::{apply_limit, list_processes, select_by_name, ListQuery};
use kodegen_tools_process::ordering::order_by_cpu;
use kodegen_tools_process::record::ProcessRecord;
use kodegen_tools_process::text::contains_text;

fn rec(pid: u32, name: &str, cpu: u32) -> ProcessRecord {
    ProcessRecord::new(pid, name.to_string(), cpu, 4096)
}

fn sample() -> Vec<ProcessRecord> {
    vec![
        rec(10, "bash", 5),
        rec(11, "Chrome", 70),
        rec(12, "chrome_helper", 20),
        rec(13, "sshd", 0),
        rec(14, "python3", 70),
        rec(15, "CHROMIUM", 20),
    ]
}

fn pids(v: &[ProcessRecord]) -> Vec<u32> {
    v.iter().map(|p| p.pid).collect()
}

fn query(filter: Option<&str>, limit: usize) -> ListQuery {
    ListQuery { filter: filter.map(|f| f.to_string()), limit }
}

#[test]
fn no_filter_no_limit_lists_everything_by_cpu() {
    let out = list_processes(sample(), &query(None, 0));
    assert_eq!(out.processes.len(), 6);
    assert_eq!(out.count, 6);
    assert_eq!(out.total_count, 6);
    assert_eq!(out.scanned_count, 6);
    assert!(!out.limited);
    for w in out.processes.windows(2) {
        assert!(w[0].cpu_key >= w[1].cpu_key);
    }
    assert_eq!(pids(&out.processes), vec![11, 14, 12, 15, 10, 13]);
}

#[test]
fn unmatched_filter_gives_empty_listing() {
    let out = list_processes(sample(), &query(Some("zzz_nonexistent_proc"), 0));
    assert!(out.processes.is_empty());
    assert_eq!(out.count, 0);
    assert_eq!(out.total_count, 0);
    assert_eq!(out.scanned_count, 6);
    assert!(!out.limited);
}

#[test]
fn limit_three_of_fifty_matches() {
    let snapshot: Vec<ProcessRecord> =
        (1..=50u32).map(|i| rec(i, &format!("worker-{i}"), i % 7)).collect();
    let out = list_processes(snapshot, &query(Some("worker"), 3));
    assert_eq!(out.processes.len(), 3);
    assert_eq!(out.count, 3);
    assert_eq!(out.total_count, 50);
    assert!(out.limited);
    assert!(out.processes.iter().all(|p| p.cpu_key == 6));
    assert_eq!(pids(&out.processes), vec![6, 13, 20]);
}

#[test]
fn filter_ignores_case() {
    let out = list_processes(sample(), &query(Some("chrom"), 0));
    assert_eq!(pids(&out.processes), vec![11, 12, 15]);
    let out = list_processes(sample(), &query(Some("CHROME"), 0));
    assert_eq!(pids(&out.processes), vec![11, 12]);
    assert_eq!(out.total_count, 2);
}

#[test]
fn filter_folds_non_ascii_letters() {
    let snapshot = vec![rec(1, "ÉCOLE-daemon", 1), rec(2, "ecole", 2)];
    let out = list_processes(snapshot, &query(Some("école"), 0));
    assert_eq!(pids(&out.processes), vec![1]);
}

#[test]
fn empty_filter_keeps_everything() {
    let out = list_processes(sample(), &query(Some(""), 0));
    assert_eq!(out.total_count, 6);
    assert_eq!(out.processes.len(), 6);
}

#[test]
fn equal_cpu_keeps_snapshot_order() {
    let snapshot = vec![rec(3, "a", 1), rec(1, "b", 1), rec(2, "c", 1), rec(9, "d", 2)];
    let out = order_by_cpu(snapshot);
    assert_eq!(pids(&out), vec![9, 3, 1, 2]);
}

#[test]
fn order_by_cpu_of_empty_is_empty() {
    assert!(order_by_cpu(Vec::new()).is_empty());
}

#[test]
fn limit_above_matches_is_not_limited() {
    let out = list_processes(sample(), &query(Some("chrom"), 5));
    assert_eq!(out.count, 3);
    assert_eq!(out.total_count, 3);
    assert!(!out.limited);
}

#[test]
fn limit_equal_to_matches_is_limited() {
    let out = list_processes(sample(), &query(Some("chrom"), 3));
    assert_eq!(out.count, 3);
    assert!(out.limited);
}

#[test]
fn limit_one_keeps_busiest_first_seen() {
    let out = list_processes(sample(), &query(None, 1));
    assert_eq!(pids(&out.processes), vec![11]);
    assert_eq!(out.total_count, 6);
    assert!(out.limited);
}

#[test]
fn empty_snapshot_lists_nothing() {
    let out = list_processes(Vec::new(), &query(Some("x"), 2));
    assert_eq!(out.count, 0);
    assert_eq!(out.scanned_count, 0);
    assert!(!out.limited);
}

#[test]
fn select_by_name_keeps_snapshot_order() {
    let kept = select_by_name(sample(), &Some("H".to_string()));
    assert_eq!(pids(&kept), vec![10, 11, 12, 13, 14, 15]);
    let kept = select_by_name(sample(), &Some("py".to_string()));
    assert_eq!(pids(&kept), vec![14]);
    let kept = select_by_name(sample(), &None);
    assert_eq!(kept.len(), 6);
}

#[test]
fn apply_limit_cuts_or_keeps() {
    assert_eq!(pids(&apply_limit(sample(), 2)), vec![10, 11]);
    assert_eq!(apply_limit(sample(), 0).len(), 6);
    assert_eq!(apply_limit(sample(), 60).len(), 6);
}

#[test]
fn contains_text_cases() {
    assert!(contains_text("chrome_helper", "helper"));
    assert!(contains_text("chrome_helper", ""));
    assert!(contains_text("", ""));
    assert!(!contains_text("", "a"));
    assert!(!contains_text("abc", "abcd"));
    assert!(contains_text("aab", "ab"));
    assert!(!contains_text("Chrome", "chrome"));
    assert!(contains_text("école", "col"));
}
