//! Code-level signals handed in by the analysis collaborator, and the model
//! that combines history, code and vulnerability risk into one score.
use vstd::prelude::*;
use crate::history::RepositoryStats;
use crate::patterns::VulnerabilityFinding;
use crate::score::{min_nat, MAX_SCORE};
use crate::text::str_eq;

verus! {

/// Dependency signals of a repository.
#[derive(Debug)]
pub struct DependencyAnalysis {
    pub total_dependencies: usize,
    pub outdated_dependencies: Vec<OutdatedDependency>,
    pub vulnerable_dependencies: Vec<VulnerableDependency>,
    pub license_issues: Vec<LicenseIssue>,
}

impl DependencyAnalysis {
    /// No dependencies and no issues.
    pub fn empty() -> (r: DependencyAnalysis)
        ensures
            r.total_dependencies == 0,
            r.outdated_dependencies.len() == 0,
            r.vulnerable_dependencies.len() == 0,
            r.license_issues.len() == 0,
    {
        DependencyAnalysis {
            total_dependencies: 0,
            outdated_dependencies: Vec::new(),
            vulnerable_dependencies: Vec::new(),
            license_issues: Vec::new(),
        }
    }
}

#[derive(Debug)]
pub struct OutdatedDependency {
    pub name: String,
    pub current_version: String,
    pub latest_version: String,
    pub age_days: i64,
}

#[derive(Debug)]
pub struct VulnerableDependency {
    pub name: String,
    pub version: String,
    /// Identifiers of the known vulnerabilities.
    pub vulnerabilities: Vec<String>,
    pub severity: String,
}

#[derive(Debug)]
pub struct LicenseIssue {
    pub dependency: String,
    pub license: String,
    /// `restrictive`, `unknown` or `conflicting`.
    pub issue_type: String,
}

#[derive(Debug)]
pub struct RiskFactor {
    pub factor_type: RiskType,
    pub severity: RiskSeverity,
    pub description: String,
    pub affected_files: Vec<String>,
    pub recommendation: String,
}

#[derive(Debug, Clone, Copy, PartialEq, Eq, Structural)]
pub enum RiskType {
    SingleAuthorFile,
    StaleCode,
    HighComplexity,
    LargeFunctions,
    DeepNesting,
    NoTests,
    OutdatedDependencies,
    VulnerableDependencies,
    LicenseIssues,
    DeadCode,
}

#[derive(Debug, Clone, Copy, PartialEq, Eq, Structural)]
pub enum RiskSeverity {
    Critical,
    High,
    Medium,
    Low,
    Info,
}

/// An area a report recommends looking at first.
#[derive(Debug)]
pub struct PriorityArea {
    pub area_type: String,
    pub risk_level: RiskSeverity,
    pub description: String,
    pub affected_files: Vec<String>,
    pub recommendation: String,
    pub commit_id: Option<String>,
}

/// The source-analysis collaborator: it picks the files whose code is
/// scored for complexity.
#[derive(Debug)]
pub struct CodeAnalyzer;

/// The file extensions whose contents are scored.
pub open spec fn analyzable_extension(ext: Seq<char>) -> bool {
    ||| ext == "rs"@
    ||| ext == "py"@
    ||| ext == "js"@
    ||| ext == "ts"@
    ||| ext == "java"@
    ||| ext == "cpp"@
    ||| ext == "c"@
    ||| ext == "h"@
    ||| ext == "hpp"@
    ||| ext == "go"@
    ||| ext == "rb"@
    ||| ext == "php"@
    ||| ext == "cs"@
}

impl CodeAnalyzer {
    pub fn new() -> (r: CodeAnalyzer) {
        CodeAnalyzer
    }

    /// Whether files with this extension (without its dot) are scored.
    pub fn should_analyze_file(&self, extension: &str) -> (r: bool)
        ensures
            r == analyzable_extension(extension@),
    {
        str_eq(extension, "rs") || str_eq(extension, "py") || str_eq(extension, "js") || str_eq(
            extension,
            "ts",
        ) || str_eq(extension, "java") || str_eq(extension, "cpp") || str_eq(extension, "c")
            || str_eq(extension, "h") || str_eq(extension, "hpp") || str_eq(extension, "go")
            || str_eq(extension, "rb") || str_eq(extension, "php") || str_eq(extension, "cs")
    }
}

/// The per-file complexity collaborator.
#[derive(Debug)]
pub struct ComplexityCalculator;

impl ComplexityCalculator {
    pub fn new() -> (r: ComplexityCalculator) {
        ComplexityCalculator
    }
}

/// What the combined model reads of the code analysis.
#[derive(Debug, Clone, Copy)]
pub struct CodeRiskInputs {
    pub total_files: usize,
    pub high_complexity_files: usize,
    pub outdated_dependencies: usize,
    pub vulnerable_dependencies: usize,
}

/// Weights and caps of the combined model, all in hundredths of a point.
#[derive(Debug, Clone, Copy)]
pub struct RiskConfig {
    pub single_author_weight: u64,
    pub stale_file_weight: u64,
    pub churn_weight: u64,
    pub history_cap: u64,
    pub complexity_weight: u64,
    pub outdated_dependency_step: u64,
    pub outdated_dependency_cap: u64,
    pub vulnerable_dependency_weight: u64,
    pub code_cap: u64,
    pub vulnerability_cap: u64,
}

impl RiskConfig {
    /// Single-author share weighs 2, stale share 1.5, churn share 1, the
    /// share of complex files 2, each outdated dependency 0.1 up to 1, each
    /// vulnerable dependency 0.5; history and code risk are capped at 10 and
    /// vulnerability risk at 5.
    pub fn standard() -> (r: RiskConfig)
        ensures
            r.single_author_weight == 200 && r.stale_file_weight == 150 && r.churn_weight == 100,
            r.history_cap == 1000 && r.code_cap == 1000 && r.vulnerability_cap == 500,
            r.complexity_weight == 200 && r.outdated_dependency_step == 10,
            r.outdated_dependency_cap == 100 && r.vulnerable_dependency_weight == 50,
    {
        RiskConfig {
            single_author_weight: 200,
            stale_file_weight: 150,
            churn_weight: 100,
            history_cap: 1000,
            complexity_weight: 200,
            outdated_dependency_step: 10,
            outdated_dependency_cap: 100,
            vulnerable_dependency_weight: 50,
            code_cap: 1000,
            vulnerability_cap: 500,
        }
    }
}

/// `weight * count / total`, rounded down; nothing when `total` is zero.
pub open spec fn share_points(count: nat, total: nat, weight: nat) -> nat {
    if total == 0 { 0 } else { (count * weight) / total }
}

pub open spec fn spec_history_risk(s: RepositoryStats, w: RiskConfig) -> nat {
    let total = s.total_files as nat;
    min_nat(
        w.history_cap as nat,
        share_points(s.single_author_files.len() as nat, total, w.single_author_weight as nat)
            + share_points(s.stale_files.len() as nat, total, w.stale_file_weight as nat)
            + share_points(s.high_churn_files.len() as nat, total, w.churn_weight as nat),
    )
}

pub open spec fn spec_code_risk(c: CodeRiskInputs, w: RiskConfig) -> nat {
    min_nat(
        w.code_cap as nat,
        share_points(c.high_complexity_files as nat, c.total_files as nat, w.complexity_weight as nat)
            + min_nat(
            c.outdated_dependencies as nat * w.outdated_dependency_step as nat,
            w.outdated_dependency_cap as nat,
        ) + c.vulnerable_dependencies as nat * w.vulnerable_dependency_weight as nat,
    )
}

/// Sum of the findings' scores.
pub open spec fn sum_scores(fs: Seq<VulnerabilityFinding>) -> nat
    decreases fs.len(),
{
    if fs.len() == 0 {
        0
    } else {
        sum_scores(fs.drop_last()) + fs.last().risk_score as nat
    }
}

/// Each finding counts for its score out of 10, so a finding of score 10
/// adds one point.
pub open spec fn spec_vulnerability_risk(fs: Seq<VulnerabilityFinding>, w: RiskConfig) -> nat {
    min_nat(w.vulnerability_cap as nat, sum_scores(fs) / 10)
}

fn share(count: usize, total: usize, weight: u64) -> (r: u128)
    ensures
        r == share_points(count as nat, total as nat, weight as nat),
{
    if total == 0 {
        0
    } else {
        assert(count as nat * weight as nat <= 0xffff_ffff_ffff_ffff * 0xffff_ffff_ffff_ffff)
            by (nonlinear_arith)
            requires
                count <= 0xffff_ffff_ffff_ffffu64,
                weight <= 0xffff_ffff_ffff_ffffu64,
        ;
        (count as u128 * weight as u128) / total as u128
    }
}

fn min_u128(a: u128, b: u128) -> (r: u128)
    ensures
        r == min_nat(a as nat, b as nat),
{
    if a <= b { a } else { b }
}

/// `min(cap, a + b + c)` without overflow.
fn capped_sum(cap: u64, a: u128, b: u128, c: u128) -> (r: u64)
    ensures
        r == min_nat(cap as nat, (a + b + c) as nat),
{
    let a1 = min_u128(a, cap as u128);
    let b1 = min_u128(b, cap as u128);
    let c1 = min_u128(c, cap as u128);
    let s = a1 + b1 + c1;
    if s <= cap as u128 {
        s as u64
    } else {
        cap
    }
}

/// History, code and vulnerability inputs of one combined score.
#[derive(Debug)]
pub struct CombinedFindings {
    pub git_stats: RepositoryStats,
    pub code_stats: CodeRiskInputs,
    pub vulnerabilities: Vec<VulnerabilityFinding>,
    pub weights: RiskConfig,
}

/// The combined score: the three capped parts added, capped at 10.
pub open spec fn spec_overall_risk(f: CombinedFindings) -> nat {
    min_nat(
        MAX_SCORE as nat,
        spec_history_risk(f.git_stats, f.weights) + spec_code_risk(f.code_stats, f.weights)
            + spec_vulnerability_risk(f.vulnerabilities@, f.weights),
    )
}

impl CombinedFindings {
    /// The combined repository score in hundredths, within `0..=1000`.
    pub fn calculate_overall_risk(&self) -> (r: u64)
        ensures
            r == spec_overall_risk(*self),
            r <= MAX_SCORE,
    {
        let h = self.calculate_git_risks() as u128;
        let c = self.calculate_code_risks() as u128;
        let v = self.calculate_vulnerability_risks() as u128;
        capped_sum(MAX_SCORE, h, c, v)
    }

    /// Ownership concentration, staleness and churn, as shares of all files.
    pub fn calculate_git_risks(&self) -> (r: u64)
        ensures
            r == spec_history_risk(self.git_stats, self.weights),
    {
        let s = &self.git_stats;
        let w = &self.weights;
        let total = s.total_files;
        let a = share(s.single_author_files.len(), total, w.single_author_weight);
        let b = share(s.stale_files.len(), total, w.stale_file_weight);
        let c = share(s.high_churn_files.len(), total, w.churn_weight);
        capped_sum(w.history_cap, a, b, c)
    }

    /// Complexity and dependency signals.
    pub fn calculate_code_risks(&self) -> (r: u64)
        ensures
            r == spec_code_risk(self.code_stats, self.weights),
    {
        let c = &self.code_stats;
        let w = &self.weights;
        let a = share(c.high_complexity_files, c.total_files, w.complexity_weight);
        assert(c.outdated_dependencies as nat * w.outdated_dependency_step as nat
            <= 0xffff_ffff_ffff_ffff * 0xffff_ffff_ffff_ffff) by (nonlinear_arith)
            requires
                c.outdated_dependencies <= 0xffff_ffff_ffff_ffffu64,
                w.outdated_dependency_step <= 0xffff_ffff_ffff_ffffu64,
        ;
        assert(c.vulnerable_dependencies as nat * w.vulnerable_dependency_weight as nat
            <= 0xffff_ffff_ffff_ffff * 0xffff_ffff_ffff_ffff) by (nonlinear_arith)
            requires
                c.vulnerable_dependencies <= 0xffff_ffff_ffff_ffffu64,
                w.vulnerable_dependency_weight <= 0xffff_ffff_ffff_ffffu64,
        ;
        let b = min_u128(
            c.outdated_dependencies as u128 * w.outdated_dependency_step as u128,
            w.outdated_dependency_cap as u128,
        );
        let d = c.vulnerable_dependencies as u128 * w.vulnerable_dependency_weight as u128;
        capped_sum(w.code_cap, a, b, d)
    }

    /// The findings' scores, each out of 10, added and capped.
    pub fn calculate_vulnerability_risks(&self) -> (r: u64)
        ensures
            r == spec_vulnerability_risk(self.vulnerabilities@, self.weights),
    {
        let fs = &self.vulnerabilities;
        let mut sum: u128 = 0;
        let mut i: usize = 0;
        while i < fs.len()
            invariant
                0 <= i <= fs.len(),
                sum == sum_scores(fs@.subrange(0, i as int)),
                sum <= i * 0xffff_ffff_ffff_ffff,
            decreases fs.len() - i,
        {
            let ghost pre = fs@.subrange(0, i as int);
            assert(fs@.subrange(0, i as int + 1).drop_last() =~= pre);
            assert((i + 1) * 0xffff_ffff_ffff_ffff == i * 0xffff_ffff_ffff_ffff + 0xffff_ffff_ffff_ffff)
                by (nonlinear_arith);
            assert(i * 0xffff_ffff_ffff_ffff <= 0xffff_ffff_ffff_ffff * 0xffff_ffff_ffff_ffff)
                by (nonlinear_arith)
                requires
                    i < 0xffff_ffff_ffff_ffffu64,
            ;
            sum = sum + fs[i].risk_score as u128;
            i += 1;
        }
        assert(fs@.subrange(0, i as int) =~= fs@);
        let cap = self.weights.vulnerability_cap;
        let points = sum / 10;
        if points <= cap as u128 {
            points as u64
        } else {
            cap
        }
    }
}

/// The combined score never exceeds 10, and it does not decrease when one
/// more finding is added.
pub proof fn lemma_overall_risk_bounded(f: CombinedFindings, extra: VulnerabilityFinding, g: CombinedFindings)
    requires
        g.git_stats == f.git_stats,
        g.code_stats == f.code_stats,
        g.weights == f.weights,
        g.vulnerabilities@ == f.vulnerabilities@.push(extra),
    ensures
        spec_overall_risk(f) <= MAX_SCORE,
        spec_overall_risk(f) <= spec_overall_risk(g),
{
    assert(g.vulnerabilities@.drop_last() =~= f.vulnerabilities@);
    assert(sum_scores(g.vulnerabilities@) / 10 >= sum_scores(f.vulnerabilities@) / 10);
}

} // verus!
