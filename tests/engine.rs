use commit_raider::engine::{finding_from_hits, PatternEngine};
use commit_raider::history::{CommitInfo, RepositoryStats};
use commit_raider::patterns::{default_patterns, profile_patterns, Category, PatternProfile, Severity};

fn commit(id: &str, message: &str, date: i64, files: &[&str]) -> CommitInfo {
    CommitInfo {
        id: id.to_string(),
        message: message.to_string(),
        author: "dev".to_string(),
        author_email: "dev@example.com".to_string(),
        committer: "dev".to_string(),
        committer_email: "dev@example.com".to_string(),
        authored_date: date,
        committed_date: date,
        files_changed: files.iter().map(|f| f.to_string()).collect(),
        insertions: 0,
        deletions: 0,
        branch: None,
    }
}

#[test]
fn cve_reference_is_extracted() {
    let engine = PatternEngine::new("all").unwrap();
    let c = commit("x", "Fix CVE-2021-1234 in parser", 1, &["src/parser.c"]);
    let f = engine.analyze_commit(&c).unwrap();
    assert!(f.cve_references.contains(&"CVE-2021-1234".to_string()));
    let m = f.patterns_matched.iter().find(|m| m.pattern_name == "CVE Reference").unwrap();
    assert_eq!(m.matched_text, "CVE-2021-1234");
    assert_eq!(m.severity, Severity::Info);
    assert_eq!(m.category, Category::Generic);
    assert_eq!(m.cve_references, vec!["CVE-2021-1234".to_string()]);
    assert_eq!(m.file_path, "commit_message");
    assert_eq!(m.context, "Fix CVE-2021-1234 in parser");
}

#[test]
fn unmatched_message_gives_no_finding() {
    let engine = PatternEngine::new("all").unwrap();
    let c = commit("x", "routine update", 1, &["README.md"]);
    assert!(engine.analyze_commit(&c).is_none());
}

#[test]
fn three_commit_scenario() {
    let mut stats = RepositoryStats::new("repo".to_string());
    stats.fold_commit(commit("C", "CVE-2022-0001 auth bypass", 300, &["file2.txt"]));
    stats.fold_commit(commit("B", "routine update", 200, &["file1.txt", "file2.txt"]));
    stats.fold_commit(commit("A", "fix buffer overflow", 100, &["file1.txt"]));
    let f1 = stats.file_history.iter().find(|f| f.path == "file1.txt").unwrap();
    assert_eq!(f1.total_changes, 2);

    let engine = PatternEngine::new("all").unwrap();
    let findings = engine.scan_repository(&stats);
    assert_eq!(findings.len(), 2);
    let ids: Vec<&str> = findings.iter().map(|f| f.commit_id.as_str()).collect();
    assert_eq!(ids, vec!["C", "A"]);

    let c = &findings[0];
    let names: Vec<&str> = c.patterns_matched.iter().map(|m| m.pattern_name.as_str()).collect();
    assert_eq!(names, vec!["Authentication Bypass", "CVE Reference"]);
    assert_eq!(c.patterns_matched[0].severity, Severity::Critical);
    assert_eq!(c.patterns_matched[1].severity, Severity::Info);
    assert_eq!(c.cve_references, vec!["CVE-2022-0001".to_string()]);
    // (9 + 1) * sqrt(1) * 2 == 20, capped at 10
    assert_eq!(c.risk_score, 1000);

    let a = &findings[1];
    assert_eq!(a.patterns_matched.len(), 1);
    assert_eq!(a.patterns_matched[0].pattern_name, "Buffer Overflow");
    assert_eq!(a.patterns_matched[0].matched_text, "buffer overflow");
    // 9 * sqrt(1)
    assert_eq!(a.risk_score, 900);
    assert_eq!(a.date, 100);
    assert_eq!(a.files_changed, vec!["file1.txt".to_string()]);
}

#[test]
fn score_grows_with_files() {
    let engine = PatternEngine::new("vuln").unwrap();
    let one = engine.analyze_commit(&commit("a", "fix memory leak", 1, &["a"])).unwrap();
    let two = engine.analyze_commit(&commit("b", "fix memory leak", 1, &["a", "b"])).unwrap();
    let none = engine.analyze_commit(&commit("c", "fix memory leak", 1, &[])).unwrap();
    assert_eq!(one.risk_score, 500);
    // 5 * sqrt(2) == 7.0710...
    assert_eq!(two.risk_score, 707);
    assert_eq!(none.risk_score, 0);
}

#[test]
fn score_grows_with_matches() {
    let engine = PatternEngine::new("all").unwrap();
    let one = engine.analyze_commit(&commit("a", "xss", 1, &["a"])).unwrap();
    let two = engine.analyze_commit(&commit("b", "xss and md5", 1, &["a"])).unwrap();
    assert_eq!(one.risk_score, 500);
    assert_eq!(two.risk_score, 1000);
    assert!(one.risk_score <= two.risk_score);
}

#[test]
fn profiles_filter_the_catalog() {
    assert_eq!(default_patterns().len(), 13);
    let mem = profile_patterns(PatternProfile::MemorySafety);
    assert_eq!(mem.len(), 5);
    assert!(mem.iter().all(|p| p.category == Category::MemorySafety));
    assert_eq!(profile_patterns(PatternProfile::Crypto).len(), 1);
    assert_eq!(profile_patterns(PatternProfile::Web).len(), 1);
    assert_eq!(profile_patterns(PatternProfile::Vuln).len(), 11);
    assert_eq!(profile_patterns(PatternProfile::All).len(), 13);
    assert_eq!(PatternProfile::from_name("crypto"), PatternProfile::Crypto);
    assert_eq!(PatternProfile::from_name("memorysafety"), PatternProfile::MemorySafety);
    assert_eq!(PatternProfile::from_name("nonsense"), PatternProfile::Vuln);
}

#[test]
fn default_profile_ignores_generic_entries() {
    let engine = PatternEngine::new("vuln").unwrap();
    assert!(engine.analyze_commit(&commit("x", "CVE-2021-1234", 1, &["a"])).is_none());
}

#[test]
fn catalog_entries_are_complete() {
    let all = default_patterns();
    let first = &all[0];
    assert_eq!(first.name, "Use After Free");
    assert_eq!(first.cwe, Some("CWE-416".to_string()));
    assert_eq!(first.examples.len(), 2);
    let cve = all.iter().find(|p| p.name == "CVE Reference").unwrap();
    assert_eq!(cve.cwe, None);
    assert_eq!(cve.severity, Severity::Info);
}

fn hit(whole: &str, group: Option<&str>) -> Vec<(String, Option<String>)> {
    vec![(whole.to_string(), group.map(|g| g.to_string()))]
}

#[test]
fn finding_from_given_hits() {
    let all = default_patterns();
    let mut hits: Vec<Vec<(String, Option<String>)>> = vec![Vec::new(); all.len()];
    let auth = all.iter().position(|p| p.name == "Authentication Bypass").unwrap();
    let cve = all.iter().position(|p| p.name == "CVE Reference").unwrap();
    hits[auth] = hit("auth bypass", None);
    hits[cve] = hit("CVE-2022-0001", Some("2022-0001"));
    let c = commit("C", "CVE-2022-0001 auth bypass", 300, &["file2.txt"]);
    let f = finding_from_hits(&all, &c, &hits).unwrap();
    assert_eq!(f.patterns_matched.len(), 2);
    assert_eq!(f.patterns_matched[0].matched_text, "auth bypass");
    assert!(f.patterns_matched[0].cve_references.is_empty());
    assert_eq!(f.patterns_matched[1].cve_references, vec!["CVE-2022-0001".to_string()]);
    assert_eq!(f.cve_references, vec!["CVE-2022-0001".to_string()]);
    assert_eq!(f.risk_score, 1000);
}

#[test]
fn no_hits_give_no_finding() {
    let all = default_patterns();
    let hits: Vec<Vec<(String, Option<String>)>> = vec![Vec::new(); all.len()];
    let c = commit("B", "routine update", 200, &["file1.txt", "file2.txt"]);
    assert!(finding_from_hits(&all, &c, &hits).is_none());
}

#[test]
fn reference_hit_without_group_adds_no_reference() {
    let all = default_patterns();
    let mut hits: Vec<Vec<(String, Option<String>)>> = vec![Vec::new(); all.len()];
    let cve = all.iter().position(|p| p.name == "CVE Reference").unwrap();
    let low = all.iter().position(|p| p.name == "Memory Leak").unwrap();
    hits[cve] = hit("cve", None);
    hits[low] = hit("memory leak", None);
    let c = commit("D", "cve memory leak", 1, &["a", "b", "c", "d"]);
    let f = finding_from_hits(&all, &c, &hits).unwrap();
    assert!(f.cve_references.is_empty());
    // (5 + 1) * sqrt(4) * 2 == 24, capped at 10
    assert_eq!(f.risk_score, 1000);
    let names: Vec<&str> = f.patterns_matched.iter().map(|m| m.pattern_name.as_str()).collect();
    assert_eq!(names, vec!["Memory Leak", "CVE Reference"]);
}

#[test]
fn every_cve_id_in_a_message_is_extracted() {
    let engine = PatternEngine::new("all").unwrap();
    let c = commit("x", "Fix CVE-2021-1234 and CVE-2022-56789, again CVE-2021-1234", 1, &["a"]);
    let f = engine.analyze_commit(&c).unwrap();
    assert_eq!(
        f.cve_references,
        vec!["CVE-2021-1234".to_string(), "CVE-2022-56789".to_string()]
    );
    let m = f.patterns_matched.iter().find(|m| m.pattern_name == "CVE Reference").unwrap();
    assert_eq!(m.matched_text, "CVE-2021-1234");
}

#[test]
fn references_from_several_given_matches() {
    let all = default_patterns();
    let mut hits: Vec<Vec<(String, Option<String>)>> = vec![Vec::new(); all.len()];
    let cve = all.iter().position(|p| p.name == "CVE Reference").unwrap();
    hits[cve] = vec![
        ("CVE-1999-0001".to_string(), Some("1999-0001".to_string())),
        ("cve".to_string(), None),
        ("CVE 2000 12345".to_string(), Some("2000 12345".to_string())),
        ("CVE-1999-0001".to_string(), Some("1999-0001".to_string())),
    ];
    let c = commit("E", "refs", 1, &["a"]);
    let f = finding_from_hits(&all, &c, &hits).unwrap();
    assert_eq!(
        f.cve_references,
        vec!["CVE-1999-0001".to_string(), "CVE-2000 12345".to_string()]
    );
    assert_eq!(f.patterns_matched.len(), 1);
    assert_eq!(f.patterns_matched[0].matched_text, "CVE-1999-0001");
}
