//! Configuration values the scan accepts, and their validation.
use vstd::prelude::*;
use crate::extract::{
    DEFAULT_BATCH_SIZE, DEFAULT_CONCURRENCY_LIMIT, DEFAULT_PROBE_TIMEOUT_SECONDS,
    MAX_COMMITS_FOR_FULL_ANALYSIS, MAX_FILES_PER_COMMIT,
};
use crate::text::str_eq;

verus! {

/// A user-supplied catalog entry, as written in a configuration file.
#[derive(Debug)]
pub struct CustomPattern {
    pub name: String,
    pub pattern: String,
    pub severity: String,
    pub category: String,
    pub description: String,
}

/// How reports are written.
#[derive(Debug)]
pub struct OutputConfig {
    pub default_format: String,
    pub include_stats: bool,
    pub max_items_per_section: usize,
    pub color_output: bool,
}

/// Days without a commit after which a file is stale.
pub const DEFAULT_STALE_THRESHOLD_DAYS: u64 = 365;

/// The values that steer a scan.
#[derive(Debug)]
pub struct ScanConfig {
    pub pattern_profile: String,
    pub stale_threshold_days: u64,
    pub commit_cap: usize,
    pub concurrency_limit: usize,
    pub batch_size: usize,
    pub probe_timeout_seconds: u64,
    pub max_files_per_commit: usize,
}

/// A setting that must be positive.
#[derive(Debug, Clone, Copy, PartialEq, Eq, Structural)]
pub enum ConfigField {
    StaleThresholdDays,
    CommitCap,
    ConcurrencyLimit,
    BatchSize,
    ProbeTimeoutSeconds,
    MaxFilesPerCommit,
}

/// Why a configuration is refused.
#[derive(Debug, Clone, Copy, PartialEq, Eq, Structural)]
pub enum ConfigError {
    /// The profile is not one of `memorysafety`, `crypto`, `web`, `all`, `vuln`.
    UnknownProfile,
    /// The setting is zero.
    NotPositive(ConfigField),
}

pub open spec fn known_profile(name: Seq<char>) -> bool {
    name == "memorysafety"@ || name == "crypto"@ || name == "web"@ || name == "all"@ || name
        == "vuln"@
}

/// The first problem of a configuration, checked in field order.
pub open spec fn config_problem(c: ScanConfig) -> Option<ConfigError> {
    if !known_profile(c.pattern_profile@) {
        Some(ConfigError::UnknownProfile)
    } else if c.stale_threshold_days == 0 {
        Some(ConfigError::NotPositive(ConfigField::StaleThresholdDays))
    } else if c.commit_cap == 0 {
        Some(ConfigError::NotPositive(ConfigField::CommitCap))
    } else if c.concurrency_limit == 0 {
        Some(ConfigError::NotPositive(ConfigField::ConcurrencyLimit))
    } else if c.batch_size == 0 {
        Some(ConfigError::NotPositive(ConfigField::BatchSize))
    } else if c.probe_timeout_seconds == 0 {
        Some(ConfigError::NotPositive(ConfigField::ProbeTimeoutSeconds))
    } else if c.max_files_per_commit == 0 {
        Some(ConfigError::NotPositive(ConfigField::MaxFilesPerCommit))
    } else {
        None
    }
}

impl ScanConfig {
    /// The default profile and limits: 365 stale days, 20000 commits, 32
    /// probes at once, batches of 50, 30 s per probe, 20 paths per commit.
    pub fn standard() -> (r: ScanConfig)
        ensures
            r.pattern_profile@ == "vuln"@,
            r.stale_threshold_days == DEFAULT_STALE_THRESHOLD_DAYS,
            r.commit_cap == MAX_COMMITS_FOR_FULL_ANALYSIS,
            r.concurrency_limit == DEFAULT_CONCURRENCY_LIMIT,
            r.batch_size == DEFAULT_BATCH_SIZE,
            r.probe_timeout_seconds == DEFAULT_PROBE_TIMEOUT_SECONDS,
            r.max_files_per_commit == MAX_FILES_PER_COMMIT,
            config_problem(r) is None,
    {
        ScanConfig {
            pattern_profile: "vuln".to_string(),
            stale_threshold_days: DEFAULT_STALE_THRESHOLD_DAYS,
            commit_cap: MAX_COMMITS_FOR_FULL_ANALYSIS,
            concurrency_limit: DEFAULT_CONCURRENCY_LIMIT,
            batch_size: DEFAULT_BATCH_SIZE,
            probe_timeout_seconds: DEFAULT_PROBE_TIMEOUT_SECONDS,
            max_files_per_commit: MAX_FILES_PER_COMMIT,
        }
    }

    /// Accepts a known profile with every limit positive; otherwise names
    /// the first problem.
    pub fn validate(&self) -> (r: Result<(), ConfigError>)
        ensures
            match config_problem(*self) {
                None => r is Ok,
                Some(e) => r == Err::<(), ConfigError>(e),
            },
    {
        let p = self.pattern_profile.as_str();
        if !(str_eq(p, "memorysafety") || str_eq(p, "crypto") || str_eq(p, "web") || str_eq(p, "all")
            || str_eq(p, "vuln")) {
            return Err(ConfigError::UnknownProfile);
        }
        if self.stale_threshold_days == 0 {
            return Err(ConfigError::NotPositive(ConfigField::StaleThresholdDays));
        }
        if self.commit_cap == 0 {
            return Err(ConfigError::NotPositive(ConfigField::CommitCap));
        }
        if self.concurrency_limit == 0 {
            return Err(ConfigError::NotPositive(ConfigField::ConcurrencyLimit));
        }
        if self.batch_size == 0 {
            return Err(ConfigError::NotPositive(ConfigField::BatchSize));
        }
        if self.probe_timeout_seconds == 0 {
            return Err(ConfigError::NotPositive(ConfigField::ProbeTimeoutSeconds));
        }
        if self.max_files_per_commit == 0 {
            return Err(ConfigError::NotPositive(ConfigField::MaxFilesPerCommit));
        }
        Ok(())
    }
}

} // verus!
