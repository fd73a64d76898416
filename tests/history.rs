use commit_raider::history::{CommitInfo, RepositoryStats, RepositoryType};

fn commit(id: &str, author: &str, date: i64, files: &[&str]) -> CommitInfo {
    CommitInfo {
        id: id.to_string(),
        message: format!("message of {}", id),
        author: author.to_string(),
        author_email: format!("{}@example.com", author),
        committer: author.to_string(),
        committer_email: format!("{}@example.com", author),
        authored_date: date,
        committed_date: date,
        files_changed: files.iter().map(|f| f.to_string()).collect(),
        insertions: 0,
        deletions: 0,
        branch: None,
    }
}

fn file<'a>(stats: &'a RepositoryStats, path: &str) -> &'a commit_raider::history::FileHistory {
    stats.file_history.iter().find(|f| f.path == path).unwrap()
}

#[test]
fn fold_counts_every_touch_once() {
    let mut stats = RepositoryStats::new("repo".to_string());
    stats.fold_commit(commit("c", "carol", 300, &["file2.txt"]));
    stats.fold_commit(commit("b", "bob", 200, &["file1.txt", "file2.txt"]));
    stats.fold_commit(commit("a", "alice", 100, &["file1.txt"]));
    assert_eq!(file(&stats, "file1.txt").total_changes, 2);
    assert_eq!(file(&stats, "file2.txt").total_changes, 2);
    let sum: usize = stats.file_history.iter().map(|f| f.total_changes).sum();
    let touches: usize = stats.commit_history.iter().map(|c| c.files_changed.len()).sum();
    assert_eq!(sum, 4);
    assert_eq!(sum, touches);
    assert_eq!(stats.total_commits, 3);
    assert_eq!(stats.first_commit, 100);
    assert_eq!(stats.last_commit, 300);
}

#[test]
fn file_history_tracks_commits_authors_and_dates() {
    let mut stats = RepositoryStats::new("repo".to_string());
    stats.fold_commit(commit("c2", "bob", 500, &["a.rs"]));
    stats.fold_commit(commit("c1", "bob", 400, &["a.rs"]));
    stats.fold_commit(commit("c0", "ann", 600, &["a.rs"]));
    let f = file(&stats, "a.rs");
    assert_eq!(f.commits, vec!["c2".to_string(), "c1".to_string(), "c0".to_string()]);
    assert_eq!(f.authors, vec!["bob".to_string(), "ann".to_string()]);
    assert_eq!(f.first_commit, 400);
    assert_eq!(f.last_commit, 600);
    assert_eq!(f.total_changes, 3);
}

#[test]
fn authors_keyed_by_name_and_email() {
    let mut stats = RepositoryStats::new("repo".to_string());
    stats.fold_commit(commit("c1", "bob", 100, &["a.rs", "b.rs"]));
    stats.fold_commit(commit("c2", "bob", 50, &["b.rs", "c.rs"]));
    let mut other = commit("c3", "bob", 70, &["d.rs"]);
    other.author_email = "bob@elsewhere.org".to_string();
    stats.fold_commit(other);
    assert_eq!(stats.author_stats.len(), 2);
    let bob = &stats.author_stats[0];
    assert_eq!(bob.commits, 2);
    assert_eq!(bob.files_touched, vec!["a.rs".to_string(), "b.rs".to_string(), "c.rs".to_string()]);
    assert_eq!(bob.first_commit, 50);
    assert_eq!(bob.last_commit, 100);
    assert_eq!(stats.author_stats[1].commits, 1);
}

#[test]
fn derived_lists_single_author_and_stale() {
    let day = 86_400;
    let now = 1000 * day;
    let mut stats = RepositoryStats::new("repo".to_string());
    stats.fold_commit(commit("c1", "ann", now - 10 * day, &["fresh.rs", "shared.rs"]));
    stats.fold_commit(commit("c2", "bob", now - 400 * day, &["old.rs", "shared.rs"]));
    stats.calculate_derived_stats(now, 365);
    assert_eq!(stats.single_author_files, vec!["fresh.rs".to_string(), "old.rs".to_string()]);
    assert_eq!(stats.stale_files, vec!["old.rs".to_string()]);
    assert_eq!(stats.total_files, 3);
    assert_eq!(stats.total_authors, 2);
}

#[test]
fn derived_lists_are_idempotent() {
    let mut stats = RepositoryStats::new("repo".to_string());
    for i in 0..12 {
        let paths: Vec<String> = (0..=i % 4).map(|k| format!("f{}.rs", k)).collect();
        let refs: Vec<&str> = paths.iter().map(|p| p.as_str()).collect();
        stats.fold_commit(commit(&format!("c{}", i), "ann", 100 + i as i64, &refs));
    }
    stats.calculate_derived_stats(5000, 1);
    let first = (
        stats.single_author_files.clone(),
        stats.stale_files.clone(),
        stats.high_churn_files.clone(),
    );
    stats.calculate_derived_stats(5000, 1);
    assert_eq!(first.0, stats.single_author_files);
    assert_eq!(first.1, stats.stale_files);
    assert_eq!(first.2, stats.high_churn_files);
}

#[test]
fn high_churn_has_one_entry_for_one_file() {
    let mut stats = RepositoryStats::new("repo".to_string());
    stats.fold_commit(commit("c1", "ann", 100, &["only.rs"]));
    stats.calculate_derived_stats(5000, 365);
    assert_eq!(stats.high_churn_files, vec!["only.rs".to_string()]);
}

#[test]
fn high_churn_is_top_tenth_with_ties_in_first_touch_order() {
    let mut stats = RepositoryStats::new("repo".to_string());
    // eleven files: two of them are touched three times, the rest once
    let paths: Vec<String> = (0..11).map(|k| format!("f{}.rs", k)).collect();
    let refs: Vec<&str> = paths.iter().map(|p| p.as_str()).collect();
    stats.fold_commit(commit("all", "ann", 100, &refs));
    stats.fold_commit(commit("x1", "ann", 101, &["f7.rs", "f3.rs"]));
    stats.fold_commit(commit("x2", "ann", 102, &["f7.rs", "f3.rs"]));
    stats.calculate_derived_stats(5000, 365);
    // ceil(11 / 10) == 2; f3 and f7 tie at 3, f3 was touched first
    assert_eq!(stats.high_churn_files, vec!["f3.rs".to_string(), "f7.rs".to_string()]);
}

#[test]
fn empty_history_derives_empty_lists() {
    let mut stats = RepositoryStats::new("repo".to_string());
    stats.calculate_derived_stats(5000, 365);
    assert!(stats.high_churn_files.is_empty());
    assert!(stats.single_author_files.is_empty());
    assert!(stats.stale_files.is_empty());
    assert_eq!(stats.total_files, 0);
    assert_eq!(stats.first_commit, i64::MAX);
    assert_eq!(stats.last_commit, i64::MIN);
}

#[test]
fn fold_batch_keeps_order() {
    let mut stats = RepositoryStats::new("repo".to_string());
    stats.fold_batch(vec![commit("n1", "ann", 300, &["a"]), commit("n2", "bob", 200, &["a"])]);
    stats.fold_batch(vec![commit("n3", "ann", 100, &[])]);
    let ids: Vec<&str> = stats.commit_history.iter().map(|c| c.id.as_str()).collect();
    assert_eq!(ids, vec!["n1", "n2", "n3"]);
    assert_eq!(stats.total_commits, 3);
    assert_eq!(file(&stats, "a").commits, vec!["n1".to_string(), "n2".to_string()]);
}

#[test]
fn top_contributors_by_commit_count() {
    let mut stats = RepositoryStats::new("repo".to_string());
    stats.fold_commit(commit("c1", "ann", 1, &[]));
    stats.fold_commit(commit("c2", "bob", 2, &[]));
    stats.fold_commit(commit("c3", "bob", 3, &[]));
    stats.fold_commit(commit("c4", "cid", 4, &[]));
    let top = stats.get_top_contributors(2);
    let names: Vec<&str> = top.iter().map(|a| a.name.as_str()).collect();
    assert_eq!(names, vec!["bob", "ann"]);
    assert_eq!(stats.get_top_contributors(10).len(), 3);
}

#[test]
fn repository_type_from_remote() {
    let t = |u: Option<&str>| RepositoryStats::detect_repository_type(&u.map(|s| s.to_string()));
    assert_eq!(t(Some("https://GitHub.com/o/r.git")), RepositoryType::GitHub);
    assert_eq!(t(Some("git@gitlab.example.org:o/r.git")), RepositoryType::GitLab);
    assert_eq!(t(Some("https://BITBUCKET.org/o/r")), RepositoryType::Bitbucket);
    assert_eq!(t(Some("https://example.org/o/r")), RepositoryType::Other);
    assert_eq!(t(None), RepositoryType::Local);
}

#[test]
fn host_type_from_lowercase_url() {
    assert_eq!(RepositoryStats::host_type("https://gitlab.com/github-mirror"), RepositoryType::GitLab);
    assert_eq!(RepositoryStats::host_type("https://github.com/o/r"), RepositoryType::GitHub);
    assert_eq!(RepositoryStats::host_type("ssh://bitbucket.org/o/r"), RepositoryType::Bitbucket);
    assert_eq!(RepositoryStats::host_type("https://GITHUB.com/o/r"), RepositoryType::Other);
    assert_eq!(RepositoryStats::host_type(""), RepositoryType::Other);
}

#[test]
fn date_bounds_cover_commits_before_the_epoch() {
    let mut stats = RepositoryStats::new("repo".to_string());
    stats.fold_batch(vec![commit("b", "ann", -500, &["a"]), commit("a", "ann", -900, &["a"])]);
    assert_eq!(stats.first_commit, -900);
    assert_eq!(stats.last_commit, -500);
    let counted: usize = stats.author_stats.iter().map(|a| a.commits).sum();
    assert_eq!(counted, stats.commit_history.len());
}
