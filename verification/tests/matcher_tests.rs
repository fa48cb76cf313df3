use catz::matcher::{contains_sub, matches_name};
use catz::process::ProcessManager;

fn table(entries: &[(u64, &str)]) -> Vec<(u64, String)> {
    let mut t: Vec<(u64, String)> = Vec::new();
    for (pid, name) in entries {
        t.push((*pid, String::from(*name)));
    }
    t
}

#[test]
fn substring_search() {
    assert!(contains_sub("chromium", "rom"));
    assert!(contains_sub("chromium", "chromium"));
    assert!(contains_sub("chromium", ""));
    assert!(contains_sub("", ""));
    assert!(!contains_sub("", "a"));
    assert!(!contains_sub("chromium", "chromiumm"));
    assert!(!contains_sub("bash", "chr"));
}

#[test]
fn matching_is_case_insensitive() {
    assert!(matches_name("chr", "Chromium"));
    assert!(matches_name("CHR", "chrome"));
    assert!(matches_name("sH", "Ssh"));
    assert!(!matches_name("chr", "bash"));
}

#[test]
fn find_matching_processes_keeps_table_order() {
    let t = table(&[(1, "chrome"), (2, "Chromium"), (3, "bash")]);
    let found = ProcessManager::find_matching_processes("chr", &t);
    assert_eq!(found.len(), 2);
    assert_eq!(found[0].0, 1);
    assert_eq!(found[0].1, "chrome");
    assert_eq!(found[1].0, 2);
    assert_eq!(found[1].1, "Chromium");
}

#[test]
fn find_matching_processes_no_match_is_empty() {
    let t = table(&[(1, "chrome"), (2, "Chromium"), (3, "bash")]);
    let found = ProcessManager::find_matching_processes("zsh", &t);
    assert!(found.is_empty());
}
