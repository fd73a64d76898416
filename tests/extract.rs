use commit_raider::extract::{
    after_diff, after_tree_listing, assemble_batch, batch_bounds, cap_files, select_commits,
    first_probe, CommitMeta, ProbeKind, ProbeStep, MAX_FILES_PER_COMMIT,
};

fn meta(id: &str) -> CommitMeta {
    CommitMeta {
        id: id.to_string(),
        message: format!("msg {}", id),
        author: "ann".to_string(),
        author_email: "ann@example.com".to_string(),
        committer: "ann".to_string(),
        committer_email: "ann@example.com".to_string(),
        authored_date: 10,
        committed_date: 11,
        is_root: false,
    }
}

fn strings(v: &[&str]) -> Vec<String> {
    v.iter().map(|s| s.to_string()).collect()
}

#[test]
fn timed_out_probe_only_empties_its_commit() {
    let metas = vec![meta("a"), meta("b"), meta("c")];
    // results arrive out of order; the probe for position 1 timed out
    let results = vec![(2usize, strings(&["z.rs"])), (0usize, strings(&["x.rs", "y.rs"]))];
    let out = assemble_batch(&metas, &results);
    assert_eq!(out.len(), 3);
    assert_eq!(out[0].id, "a");
    assert_eq!(out[0].files_changed, strings(&["x.rs", "y.rs"]));
    assert_eq!(out[1].id, "b");
    assert_eq!(out[1].message, "msg b");
    assert!(out[1].files_changed.is_empty());
    assert_eq!(out[2].id, "c");
    assert_eq!(out[2].files_changed, strings(&["z.rs"]));
    assert_eq!(out[2].authored_date, 10);
    assert_eq!(out[2].committed_date, 11);
}

#[test]
fn selection_is_deterministic_and_keeps_order() {
    let ids = strings(&["h5", "h4", "h3", "h2", "h1"]);
    let a = select_commits(ids.clone(), 3);
    let b = select_commits(ids.clone(), 3);
    assert_eq!(a, strings(&["h5", "h4", "h3"]));
    assert_eq!(a, b);
    assert_eq!(select_commits(ids.clone(), 20000), ids);
}

#[test]
fn batches_cover_positions_in_order() {
    assert_eq!(batch_bounds(101, 50), vec![(0, 50), (50, 100), (100, 101)]);
    assert_eq!(batch_bounds(100, 50), vec![(0, 50), (50, 100)]);
    assert!(batch_bounds(0, 50).is_empty());
}

#[test]
fn probe_output_is_capped_and_filtered() {
    let mut lines: Vec<String> = (0..25).map(|i| format!("f{}.rs", i)).collect();
    lines[1] = String::new();
    let files = cap_files(&lines, MAX_FILES_PER_COMMIT);
    assert_eq!(files.len(), 20);
    assert_eq!(files[0], "f0.rs");
    assert_eq!(files[1], "f2.rs");
    assert_eq!(files[19], "f20.rs");
}

#[test]
fn root_commit_lists_its_tree() {
    assert_eq!(first_probe(true), ProbeKind::ListTree);
    assert_eq!(first_probe(false), ProbeKind::DiffFirstParent);
}

#[test]
fn empty_diff_falls_back_to_tree_listing() {
    match after_diff(Some(vec![String::new()]), 20) {
        ProbeStep::ListTree => {}
        other => panic!("unexpected {:?}", other),
    }
    let files = after_tree_listing(Some(strings(&["file1.txt", ""])), 20);
    assert_eq!(files, strings(&["file1.txt"]));
    assert!(after_tree_listing(None, 20).is_empty());
}

#[test]
fn failed_probe_gives_no_files() {
    match after_diff(None, 20) {
        ProbeStep::Done(files) => assert!(files.is_empty()),
        other => panic!("unexpected {:?}", other),
    }
    match after_diff(Some(strings(&["a.rs", "b.rs"])), 1) {
        ProbeStep::Done(files) => assert_eq!(files, strings(&["a.rs"])),
        other => panic!("unexpected {:?}", other),
    }
}

#[test]
fn leading_empty_line_does_not_cost_a_path() {
    let mut lines = vec![String::new()];
    lines.extend((0..21).map(|i| format!("p{}", i)));
    let files = cap_files(&lines, 20);
    assert_eq!(files.len(), 20);
    assert_eq!(files[19], "p19");
    assert!(cap_files(&strings(&["", ""]), 20).is_empty());
}
