use commit_raider::analysis::{CodeRiskInputs, CombinedFindings, RiskConfig};
use commit_raider::history::RepositoryStats;
use commit_raider::patterns::{Severity, VulnerabilityFinding};
use commit_raider::score::{isqrt, risk_score, MAX_SCORE};

#[test]
fn integer_square_roots() {
    assert_eq!(isqrt(0), 0);
    assert_eq!(isqrt(1), 1);
    assert_eq!(isqrt(15), 3);
    assert_eq!(isqrt(16), 4);
    assert_eq!(isqrt(1_000_000), 1000);
    assert_eq!(isqrt(u128::MAX), u64::MAX);
}

#[test]
fn risk_score_formula() {
    assert_eq!(risk_score(9, 1, false), 900);
    assert_eq!(risk_score(1, 1, true), 200);
    // 3 * sqrt(3) == 5.196...
    assert_eq!(risk_score(3, 3, false), 519);
    assert_eq!(risk_score(9, 4, false), MAX_SCORE);
    assert_eq!(risk_score(10, 1, true), MAX_SCORE);
    assert_eq!(risk_score(u64::MAX, 7, false), MAX_SCORE);
    assert_eq!(risk_score(9, 0, true), 0);
    assert_eq!(risk_score(0, 5, true), 0);
}

#[test]
fn risk_score_is_monotone_and_bounded() {
    let mut prev = 0;
    for files in 0..50usize {
        let s = risk_score(2, files, false);
        assert!(s >= prev);
        assert!(s <= MAX_SCORE);
        prev = s;
    }
    for w in 0..20u64 {
        assert!(risk_score(w, 2, false) <= risk_score(w + 1, 2, false));
        assert!(risk_score(w, 2, false) <= risk_score(w, 2, true));
    }
}

#[test]
fn severity_weights() {
    assert_eq!(Severity::Critical.weight(), 9);
    assert_eq!(Severity::High.weight(), 7);
    assert_eq!(Severity::Medium.weight(), 5);
    assert_eq!(Severity::Low.weight(), 3);
    assert_eq!(Severity::Info.weight(), 1);
}

fn finding(score: u64) -> VulnerabilityFinding {
    VulnerabilityFinding {
        commit_id: "c".to_string(),
        commit_message: "m".to_string(),
        author: "a".to_string(),
        date: 0,
        files_changed: vec![],
        patterns_matched: vec![],
        risk_score: score,
        cve_references: vec![],
    }
}

fn combined(files: usize, single: usize, stale: usize, churn: usize, scores: &[u64]) -> CombinedFindings {
    let mut stats = RepositoryStats::new("repo".to_string());
    stats.total_files = files;
    stats.single_author_files = (0..single).map(|i| format!("s{}", i)).collect();
    stats.stale_files = (0..stale).map(|i| format!("t{}", i)).collect();
    stats.high_churn_files = (0..churn).map(|i| format!("h{}", i)).collect();
    CombinedFindings {
        git_stats: stats,
        code_stats: CodeRiskInputs {
            total_files: 10,
            high_complexity_files: 5,
            outdated_dependencies: 3,
            vulnerable_dependencies: 1,
        },
        vulnerabilities: scores.iter().map(|s| finding(*s)).collect(),
        weights: RiskConfig::standard(),
    }
}

#[test]
fn combined_risk_parts() {
    let f = combined(4, 2, 1, 1, &[1000, 500]);
    // 2 * 2/4 + 1.5 * 1/4 + 1 * 1/4 == 1.625
    assert_eq!(f.calculate_git_risks(), 162);
    // 2 * 5/10 + 0.3 + 0.5 == 1.8
    assert_eq!(f.calculate_code_risks(), 180);
    // 10/10 + 5/10 == 1.5
    assert_eq!(f.calculate_vulnerability_risks(), 150);
    assert_eq!(f.calculate_overall_risk(), 492);
}

#[test]
fn combined_risk_caps() {
    let many = vec![1000u64; 20];
    let f = combined(1, 1, 1, 1, &many);
    assert_eq!(f.calculate_vulnerability_risks(), 500);
    assert_eq!(f.calculate_git_risks(), 450);
    assert_eq!(f.calculate_overall_risk(), MAX_SCORE);
    let empty = combined(0, 0, 0, 0, &[]);
    assert_eq!(empty.calculate_git_risks(), 0);
}
