use commit_raider::analysis::{CodeAnalyzer, ComplexityCalculator, DependencyAnalysis};
use commit_raider::config::{ConfigError, ConfigField, ScanConfig};
use commit_raider::output::{add_file_extension, OutputFormat, Reporter};

#[test]
fn standard_config_is_valid() {
    let c = ScanConfig::standard();
    assert_eq!(c.validate(), Ok(()));
    assert_eq!(c.stale_threshold_days, 365);
    assert_eq!(c.batch_size, 50);
    assert_eq!(c.concurrency_limit, 32);
    assert_eq!(c.max_files_per_commit, 20);
    assert_eq!(c.probe_timeout_seconds, 30);
    assert_eq!(c.commit_cap, 20000);
}

#[test]
fn config_errors_name_the_problem() {
    let mut c = ScanConfig::standard();
    c.pattern_profile = "memory".to_string();
    assert_eq!(c.validate(), Err(ConfigError::UnknownProfile));
    let cases: Vec<(fn(&mut ScanConfig), ConfigField)> = vec![
        (|c| c.stale_threshold_days = 0, ConfigField::StaleThresholdDays),
        (|c| c.commit_cap = 0, ConfigField::CommitCap),
        (|c| c.concurrency_limit = 0, ConfigField::ConcurrencyLimit),
        (|c| c.batch_size = 0, ConfigField::BatchSize),
        (|c| c.probe_timeout_seconds = 0, ConfigField::ProbeTimeoutSeconds),
        (|c| c.max_files_per_commit = 0, ConfigField::MaxFilesPerCommit),
    ];
    for (breaks, field) in cases {
        let mut c = ScanConfig::standard();
        breaks(&mut c);
        assert_eq!(c.validate(), Err(ConfigError::NotPositive(field)));
    }
}

#[test]
fn output_format_from_name_ignores_case() {
    assert_eq!(OutputFormat::from_name("JSON"), OutputFormat::Json);
    assert_eq!(OutputFormat::from_name("json"), OutputFormat::Json);
    assert_eq!(OutputFormat::from_name("Html"), OutputFormat::Html);
    assert_eq!(OutputFormat::from_name("pdf"), OutputFormat::Html);
}

#[test]
fn file_extension_added_once() {
    assert_eq!(add_file_extension("report", &OutputFormat::Html), "report.html");
    assert_eq!(add_file_extension("report.html", &OutputFormat::Html), "report.html");
    assert_eq!(add_file_extension("report.html", &OutputFormat::Json), "report.html.json");
    assert_eq!(add_file_extension("", &OutputFormat::Json), ".json");
}

#[test]
fn reporter_picks_format_and_path() {
    let r = Reporter::new("JSON", "out/report_commit_raider");
    assert_eq!(r.format, OutputFormat::Json);
    assert_eq!(r.output_path, "out/report_commit_raider.json");
}

#[test]
fn analyzable_extensions() {
    let a = CodeAnalyzer::new();
    assert!(a.should_analyze_file("rs"));
    assert!(a.should_analyze_file("hpp"));
    assert!(!a.should_analyze_file("md"));
    assert!(!a.should_analyze_file("RS"));
    let _ = ComplexityCalculator::new();
    let d = DependencyAnalysis::empty();
    assert_eq!(d.total_dependencies, 0);
}

#[test]
fn output_format_from_str() {
    assert_eq!(OutputFormat::from("Json"), OutputFormat::Json);
    assert_eq!(OutputFormat::from("html"), OutputFormat::Html);
    assert_eq!(OutputFormat::from(""), OutputFormat::Html);
}
