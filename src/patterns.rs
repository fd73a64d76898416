use vstd::prelude::*;
use crate::text::str_eq;

verus! {

/// How severe a vulnerability indicator is.
#[derive(Debug, Clone, Copy, PartialEq, Eq, Structural)]
pub enum Severity {
    Critical,
    High,
    Medium,
    Low,
    Info,
}

/// The closed set of areas a vulnerability indicator belongs to.
#[derive(Debug, Clone, Copy, PartialEq, Eq, Hash, Structural)]
pub enum Category {
    MemorySafety,
    Cryptography,
    WebSecurity,
    InputValidation,
    AuthenticationAuthorization,
    Concurrency,
    DataExposure,
    CodeInjection,
    Generic,
}

/// One entry of the indicator catalog: a named regular expression that is
/// matched against commit messages.
#[derive(Debug, Clone)]
pub struct VulnerabilityPattern {
    pub name: String,
    pub pattern: String,
    pub severity: Severity,
    pub category: Category,
    pub description: String,
    pub cwe: Option<String>,
    pub examples: Vec<String>,
}

/// One indicator that matched a commit message.
#[derive(Debug, Clone)]
pub struct PatternMatch {
    pub pattern_name: String,
    pub matched_text: String,
    pub severity: Severity,
    pub category: Category,
    pub file_path: String,
    pub line_number: Option<usize>,
    pub context: String,
    pub cve_references: Vec<String>,
}

/// Everything found in one commit. `risk_score` is in hundredths of a point,
/// so it lies in `0..=1000` for a score between 0 and 10.
#[derive(Debug, Clone)]
pub struct VulnerabilityFinding {
    pub commit_id: String,
    pub commit_message: String,
    pub author: String,
    pub date: i64,
    pub files_changed: Vec<String>,
    pub patterns_matched: Vec<PatternMatch>,
    pub risk_score: u64,
    pub cve_references: Vec<String>,
}

/// The weight a match of the given severity adds to a risk score.
pub open spec fn severity_weight(s: Severity) -> nat {
    match s {
        Severity::Critical => 9,
        Severity::High => 7,
        Severity::Medium => 5,
        Severity::Low => 3,
        Severity::Info => 1,
    }
}

impl Severity {
    /// The scoring weight of this severity.
    pub fn weight(&self) -> (w: u64)
        ensures
            w == severity_weight(*self),
    {
        match self {
            Severity::Critical => 9,
            Severity::High => 7,
            Severity::Medium => 5,
            Severity::Low => 3,
            Severity::Info => 1,
        }
    }
}

pub open spec fn opt_view(o: Option<String>) -> Option<Seq<char>> {
    match o {
        Some(s) => Some(s@),
        None => None,
    }
}

/// What the contracts say of a catalog entry: name, expression, severity,
/// category and weakness identifier.
pub open spec fn pattern_info(p: VulnerabilityPattern) -> (
    Seq<char>,
    Seq<char>,
    Severity,
    Category,
    Option<Seq<char>>,
) {
    (p.name@, p.pattern@, p.severity, p.category, opt_view(p.cwe))
}

/// The name of the catalog entry whose first group is an external reference id.
pub open spec fn reference_pattern_name() -> Seq<char> {
    "CVE Reference"@
}

/// The full indicator catalog, in order.
pub open spec fn catalog() -> Seq<(Seq<char>, Seq<char>, Severity, Category, Option<Seq<char>>)> {
    seq![
        ("Use After Free"@, r"(?i)\b(use[-\s]after[-\s]free|uaf|dangling[-\s]pointer)\b"@,
            Severity::Critical, Category::MemorySafety, Some("CWE-416"@)),
        ("Buffer Overflow"@,
            r"(?i)\b(buffer[-\s]overflow|stack[-\s]overflow|heap[-\s]overflow|bof|ovflw|StackO)\b"@,
            Severity::Critical, Category::MemorySafety, Some("CWE-120"@)),
        ("Double Free"@, r"(?i)\b(double[-\s]free|free[-\s]after[-\s]free)\b"@,
            Severity::High, Category::MemorySafety, Some("CWE-415"@)),
        ("Race Condition"@, r"(?i)\b(race[-\s]condition|data[-\s]race|concurrency[-\s]bug)\b"@,
            Severity::High, Category::Concurrency, Some("CWE-362"@)),
        ("Memory Leak"@, r"(?i)\b(memory[-\s]leak|mem[-\s]leak|resource[-\s]leak)\b"@,
            Severity::Medium, Category::MemorySafety, Some("CWE-401"@)),
        ("Null Pointer Dereference"@,
            r"(?i)\b(null[-\s]pointer|nullptr[-\s]dereference|segfault|sigsegv)\b"@,
            Severity::Medium, Category::MemorySafety, Some("CWE-476"@)),
        ("Code Injection"@,
            r"(?i)\b(code[-\s]injection|command[-\s]injection|sql[-\s]injection|remote[-\s]code[-\s]execution|rce)\b"@,
            Severity::Critical, Category::CodeInjection, Some("CWE-94"@)),
        ("Type confusion"@, r"(?i)\b(type confusion|confused)\b"@,
            Severity::Critical, Category::CodeInjection, Some("CWE-843"@)),
        ("Authentication Bypass"@,
            r"(?i)\b(auth[-\s]bypass|authentication[-\s]bypass|privilege[-\s]escalation)\b"@,
            Severity::Critical, Category::AuthenticationAuthorization, Some("CWE-287"@)),
        ("Cross-Site Scripting"@, r"(?i)\b(xss|cross[-\s]site[-\s]scripting)\b"@,
            Severity::Medium, Category::WebSecurity, Some("CWE-79"@)),
        ("Weak Cryptography"@,
            r"(?i)\b(weak[-\s]crypto|weak[-\s]cipher|broken[-\s]crypto|md5|sha1\b|des\b|rc4)\b"@,
            Severity::Medium, Category::Cryptography, Some("CWE-327"@)),
        ("CVE Reference"@, r"(?i)\bcve[-\s]?(\d{4}[-\s]?\d{4,})\b"@,
            Severity::Info, Category::Generic, None),
        ("Security Fix"@,
            r"(?i)\b(security[-\s]fix|security[-\s]patch|vulnerability|exploit|malicious|vulnerable|fallthrough)\b"@,
            Severity::Info, Category::Generic, None),
    ]
}

fn entry(
    name: &str,
    pattern: &str,
    severity: Severity,
    category: Category,
    description: &str,
    cwe: Option<&str>,
    examples: Vec<String>,
) -> (p: VulnerabilityPattern)
    ensures
        p.name@ == name@,
        p.pattern@ == pattern@,
        p.severity == severity,
        p.category == category,
        p.description@ == description@,
        opt_view(p.cwe) == (match cwe {
            Some(c) => Some(c@),
            None => None::<Seq<char>>,
        }),
        p.examples == examples,
{
    let cwe = match cwe {
        Some(c) => Some(c.to_string()),
        None => None,
    };
    VulnerabilityPattern {
        name: name.to_string(),
        pattern: pattern.to_string(),
        severity,
        category,
        description: description.to_string(),
        cwe,
        examples,
    }
}


/// The full indicator catalog, in a fixed order.
pub fn default_patterns() -> (r: Vec<VulnerabilityPattern>)
    ensures
        r@.map_values(|p: VulnerabilityPattern| pattern_info(p)) == catalog(),
{
    let mut r: Vec<VulnerabilityPattern> = Vec::new();
    r.push(entry(
        "Use After Free",
        r"(?i)\b(use[-\s]after[-\s]free|uaf|dangling[-\s]pointer)\b",
        Severity::Critical,
        Category::MemorySafety,
        "Potential use-after-free vulnerability",
        Some("CWE-416"),
        vec!["Fix use after free".to_string(), "UAF vulnerability".to_string()],
    ));
    r.push(entry(
        "Buffer Overflow",
        r"(?i)\b(buffer[-\s]overflow|stack[-\s]overflow|heap[-\s]overflow|bof|ovflw|StackO)\b",
        Severity::Critical,
        Category::MemorySafety,
        "Potential buffer overflow vulnerability",
        Some("CWE-120"),
        vec!["Fix buffer overflow".to_string(), "Stack overflow protection".to_string()],
    ));
    r.push(entry(
        "Double Free",
        r"(?i)\b(double[-\s]free|free[-\s]after[-\s]free)\b",
        Severity::High,
        Category::MemorySafety,
        "Potential double-free vulnerability",
        Some("CWE-415"),
        vec!["Fix double free".to_string()],
    ));
    r.push(entry(
        "Race Condition",
        r"(?i)\b(race[-\s]condition|data[-\s]race|concurrency[-\s]bug)\b",
        Severity::High,
        Category::Concurrency,
        "Potential race condition vulnerability",
        Some("CWE-362"),
        vec!["Fix race condition".to_string()],
    ));
    r.push(entry(
        "Memory Leak",
        r"(?i)\b(memory[-\s]leak|mem[-\s]leak|resource[-\s]leak)\b",
        Severity::Medium,
        Category::MemorySafety,
        "Potential memory leak",
        Some("CWE-401"),
        vec!["Fix memory leak".to_string()],
    ));
    r.push(entry(
        "Null Pointer Dereference",
        r"(?i)\b(null[-\s]pointer|nullptr[-\s]dereference|segfault|sigsegv)\b",
        Severity::Medium,
        Category::MemorySafety,
        "Potential null pointer dereference",
        Some("CWE-476"),
        vec!["Fix null pointer".to_string(), "Segmentation fault".to_string()],
    ));
    r.push(entry(
        "Code Injection",
        r"(?i)\b(code[-\s]injection|command[-\s]injection|sql[-\s]injection|remote[-\s]code[-\s]execution|rce)\b",
        Severity::Critical,
        Category::CodeInjection,
        "Potential code injection vulnerability",
        Some("CWE-94"),
        vec!["Fix code injection".to_string(), "SQL injection".to_string()],
    ));
    r.push(entry(
        "Type confusion",
        r"(?i)\b(type confusion|confused)\b",
        Severity::Critical,
        Category::CodeInjection,
        "Access of Resource Using Incompatible Type ('Type Confusion')",
        Some("CWE-843"),
        vec!["Fix code injection".to_string(), "Type confusion".to_string()],
    ));
    r.push(entry(
        "Authentication Bypass",
        r"(?i)\b(auth[-\s]bypass|authentication[-\s]bypass|privilege[-\s]escalation)\b",
        Severity::Critical,
        Category::AuthenticationAuthorization,
        "Potential authentication bypass",
        Some("CWE-287"),
        vec!["Fix auth bypass".to_string()],
    ));
    r.push(entry(
        "Cross-Site Scripting",
        r"(?i)\b(xss|cross[-\s]site[-\s]scripting)\b",
        Severity::Medium,
        Category::WebSecurity,
        "Potential XSS vulnerability",
        Some("CWE-79"),
        vec!["Fix XSS".to_string()],
    ));
    r.push(entry(
        "Weak Cryptography",
        r"(?i)\b(weak[-\s]crypto|weak[-\s]cipher|broken[-\s]crypto|md5|sha1\b|des\b|rc4)\b",
        Severity::Medium,
        Category::Cryptography,
        "Weak cryptographic implementation",
        Some("CWE-327"),
        vec!["Replace weak crypto".to_string()],
    ));
    r.push(entry(
        "CVE Reference",
        r"(?i)\bcve[-\s]?(\d{4}[-\s]?\d{4,})\b",
        Severity::Info,
        Category::Generic,
        "CVE reference found",
        None,
        vec!["CVE-2021-1234".to_string()],
    ));
    r.push(entry(
        "Security Fix",
        r"(?i)\b(security[-\s]fix|security[-\s]patch|vulnerability|exploit|malicious|vulnerable|fallthrough)\b",
        Severity::Info,
        Category::Generic,
        "General security-related change",
        None,
        vec!["Security fix".to_string()],
    ));
    assert(r@.map_values(|p: VulnerabilityPattern| pattern_info(p)) =~= catalog());
    r
}

pub type CatalogEntry = (Seq<char>, Seq<char>, Severity, Category, Option<Seq<char>>);

/// A named subset of the catalog.
#[derive(Debug, Clone, Copy, PartialEq, Eq, Structural)]
pub enum PatternProfile {
    MemorySafety,
    Crypto,
    Web,
    All,
    Vuln,
}

/// Whether entries of category `c` belong to profile `p`. The default
/// profile holds everything but the generic entries.
pub open spec fn in_profile(p: PatternProfile, c: Category) -> bool {
    match p {
        PatternProfile::MemorySafety => c == Category::MemorySafety,
        PatternProfile::Crypto => c == Category::Cryptography,
        PatternProfile::Web => c == Category::WebSecurity,
        PatternProfile::All => true,
        PatternProfile::Vuln => c != Category::Generic,
    }
}

/// The catalog entries of profile `p`, in catalog order.
pub open spec fn catalog_for(p: PatternProfile) -> Seq<CatalogEntry> {
    catalog().filter(|e: CatalogEntry| in_profile(p, e.3))
}

/// The profile a name selects; an unknown name selects the default.
pub open spec fn profile_named(name: Seq<char>) -> PatternProfile {
    if name == "memorysafety"@ {
        PatternProfile::MemorySafety
    } else if name == "crypto"@ {
        PatternProfile::Crypto
    } else if name == "web"@ {
        PatternProfile::Web
    } else if name == "all"@ {
        PatternProfile::All
    } else {
        PatternProfile::Vuln
    }
}

impl PatternProfile {
    /// Reads a profile name: `memorysafety`, `crypto`, `web` or `all`; any
    /// other name gives the default profile.
    pub fn from_name(name: &str) -> (r: PatternProfile)
        ensures
            r == profile_named(name@),
    {
        if str_eq(name, "memorysafety") {
            PatternProfile::MemorySafety
        } else if str_eq(name, "crypto") {
            PatternProfile::Crypto
        } else if str_eq(name, "web") {
            PatternProfile::Web
        } else if str_eq(name, "all") {
            PatternProfile::All
        } else {
            PatternProfile::Vuln
        }
    }

    /// Whether entries of category `c` belong to this profile.
    pub fn includes(&self, c: Category) -> (r: bool)
        ensures
            r == in_profile(*self, c),
    {
        match self {
            PatternProfile::MemorySafety => c == Category::MemorySafety,
            PatternProfile::Crypto => c == Category::Cryptography,
            PatternProfile::Web => c == Category::WebSecurity,
            PatternProfile::All => true,
            PatternProfile::Vuln => c != Category::Generic,
        }
    }
}

/// The catalog entries of a profile, in catalog order.
pub fn profile_patterns(profile: PatternProfile) -> (r: Vec<VulnerabilityPattern>)
    ensures
        r@.map_values(|p: VulnerabilityPattern| pattern_info(p)) == catalog_for(profile),
{
    let mut rest = default_patterns();
    let ghost all = rest@.map_values(|p: VulnerabilityPattern| pattern_info(p));
    let ghost pred = |e: CatalogEntry| in_profile(profile, e.3);
    let n = rest.len();
    let mut r: Vec<VulnerabilityPattern> = Vec::new();
    let mut i: usize = 0;
    proof {
        reveal(Seq::filter);
        assert(all.subrange(0, 0).filter(pred) =~= Seq::<CatalogEntry>::empty());
    }
    while i < n
        invariant
            all.len() == n,
            all == catalog(),
            0 <= i <= n,
            rest.len() == n - i,
            rest@.map_values(|p: VulnerabilityPattern| pattern_info(p)) == all.subrange(i as int, n as int),
            r@.map_values(|p: VulnerabilityPattern| pattern_info(p)) == all.subrange(0, i as int).filter(pred),
            pred == (|e: CatalogEntry| in_profile(profile, e.3)),
        decreases n - i,
    {
        let ghost rv = rest@;
        let p = rest.remove(0);
        proof {
            assert(pattern_info(p) == all[i as int]) by {
                assert(p == rv[0]);
                assert(rv.map_values(|p: VulnerabilityPattern| pattern_info(p))[0] == all.subrange(
                    i as int,
                    n as int,
                )[0]);
            }
            assert(rest@ =~= rv.subrange(1, rv.len() as int));
            let rm = rv.map_values(|p: VulnerabilityPattern| pattern_info(p));
            assert forall|j: int| 0 <= j < rest@.len() implies pattern_info(#[trigger] rest@[j]) == all[i
                + 1 + j] by {
                assert(rest@[j] == rv[j + 1]);
                assert(rm[j + 1] == all.subrange(i as int, n as int)[j + 1]);
            }
            assert(rest@.map_values(|p: VulnerabilityPattern| pattern_info(p)) =~= all.subrange(
                i as int + 1,
                n as int,
            ));
            reveal(Seq::filter);
            assert(all.subrange(0, i as int + 1).drop_last() =~= all.subrange(0, i as int));
        }
        let ghost before = r@;
        if profile.includes(p.category) {
            r.push(p);
            assert(r@.map_values(|p: VulnerabilityPattern| pattern_info(p)) =~= before.map_values(
                |p: VulnerabilityPattern| pattern_info(p),
            ).push(all[i as int]));
        }
        i += 1;
    }
    assert(all.subrange(0, n as int) =~= all);
    r
}

} // verus!
